//! The canonical interface-definition document: the algebraic type
//! representation and the output records assembled by the extractor, each
//! paired with a ghost model used by the contracts.

use vstd::prelude::*;

verus! {

/// Canonical algebraic type of a field, argument or constant.
#[derive(Debug, PartialEq)]
pub enum IdlType {
    Bool,
    U8,
    U16,
    U32,
    U64,
    U128,
    I8,
    I16,
    I32,
    I64,
    I128,
    Str,
    Array(Box<IdlType>, u64),
    Vector(Box<IdlType>),
    Opt(Box<IdlType>),
    Defined(String),
    Tuple(Vec<IdlType>),
}

/// Ghost counterpart of [`IdlType`].
pub enum TypeModel {
    Bool,
    U8,
    U16,
    U32,
    U64,
    U128,
    I8,
    I16,
    I32,
    I64,
    I128,
    Str,
    Array(Box<TypeModel>, nat),
    Vector(Box<TypeModel>),
    Opt(Box<TypeModel>),
    Defined(Seq<char>),
    Tuple(Seq<TypeModel>),
}

impl IdlType {
    pub open spec fn model(self) -> TypeModel
        decreases self,
    {
        match self {
            IdlType::Bool => TypeModel::Bool,
            IdlType::U8 => TypeModel::U8,
            IdlType::U16 => TypeModel::U16,
            IdlType::U32 => TypeModel::U32,
            IdlType::U64 => TypeModel::U64,
            IdlType::U128 => TypeModel::U128,
            IdlType::I8 => TypeModel::I8,
            IdlType::I16 => TypeModel::I16,
            IdlType::I32 => TypeModel::I32,
            IdlType::I64 => TypeModel::I64,
            IdlType::I128 => TypeModel::I128,
            IdlType::Str => TypeModel::Str,
            IdlType::Array(t, n) => TypeModel::Array(Box::new(t.model()), n as nat),
            IdlType::Vector(t) => TypeModel::Vector(Box::new(t.model())),
            IdlType::Opt(t) => TypeModel::Opt(Box::new(t.model())),
            IdlType::Defined(n) => TypeModel::Defined(n@),
            IdlType::Tuple(ts) => TypeModel::Tuple(
                Seq::new(
                    ts@.len(),
                    |i: int|
                        if 0 <= i < ts@.len() {
                            ts@[i].model()
                        } else {
                            TypeModel::Bool
                        },
                ),
            ),
        }
    }
}

/// Doc lines as they appear in contracts.
pub open spec fn docs_model(d: Option<Vec<String>>) -> Option<Seq<Seq<char>>> {
    match d {
        None => None,
        Some(v) => Some(v@.map_values(|s: String| s@)),
    }
}

/// String list as character sequences.
pub open spec fn strs_model(v: Vec<String>) -> Seq<Seq<char>> {
    v@.map_values(|s: String| s@)
}

/// A named, typed field of an instruction argument list or a struct shape.
pub struct IdlField {
    pub name: String,
    pub docs: Option<Vec<String>>,
    pub ty: IdlType,
    pub typesmith_derived: bool,
}

pub struct FieldModel {
    pub name: Seq<char>,
    pub docs: Option<Seq<Seq<char>>>,
    pub ty: TypeModel,
    pub typesmith_derived: bool,
}

impl IdlField {
    pub open spec fn model(self) -> FieldModel {
        FieldModel {
            name: self.name@,
            docs: docs_model(self.docs),
            ty: self.ty.model(),
            typesmith_derived: self.typesmith_derived,
        }
    }
}

pub open spec fn fields_model(v: Seq<IdlField>) -> Seq<FieldModel> {
    v.map_values(|f: IdlField| f.model())
}

/// Payload shape of one enum variant.
pub enum EnumFields {
    Named(Vec<IdlField>),
    Tuple(Vec<IdlType>),
}

pub enum EnumFieldsModel {
    Named(Seq<FieldModel>),
    Tuple(Seq<TypeModel>),
}

impl EnumFields {
    pub open spec fn model(self) -> EnumFieldsModel {
        match self {
            EnumFields::Named(fs) => EnumFieldsModel::Named(fields_model(fs@)),
            EnumFields::Tuple(ts) => EnumFieldsModel::Tuple(
                ts@.map_values(|t: IdlType| t.model()),
            ),
        }
    }
}

pub struct IdlEnumVariant {
    pub name: String,
    pub fields: Option<EnumFields>,
}

pub struct EnumVariantModel {
    pub name: Seq<char>,
    pub fields: Option<EnumFieldsModel>,
}

impl IdlEnumVariant {
    pub open spec fn model(self) -> EnumVariantModel {
        EnumVariantModel {
            name: self.name@,
            fields: match self.fields {
                None => None,
                Some(f) => Some(f.model()),
            },
        }
    }
}

/// Shape of a user-defined type: a struct with named fields or an enum.
pub enum IdlTypeDefinitionTy {
    Struct { fields: Vec<IdlField> },
    Enum { variants: Vec<IdlEnumVariant> },
}

pub enum TypeDefTyModel {
    Struct { fields: Seq<FieldModel> },
    Enum { variants: Seq<EnumVariantModel> },
}

impl IdlTypeDefinitionTy {
    pub open spec fn model(self) -> TypeDefTyModel {
        match self {
            IdlTypeDefinitionTy::Struct { fields } => TypeDefTyModel::Struct {
                fields: fields_model(fields@),
            },
            IdlTypeDefinitionTy::Enum { variants } => TypeDefTyModel::Enum {
                variants: variants@.map_values(|v: IdlEnumVariant| v.model()),
            },
        }
    }
}

/// PDA seed-shape metadata attached to a struct by the seed-type tag.
pub struct TypeSmithAccount {
    pub seeds: Vec<String>,
}

pub struct IdlTypeDefinition {
    pub name: String,
    pub docs: Option<Vec<String>>,
    pub ty: IdlTypeDefinitionTy,
    pub typesmith: Option<TypeSmithAccount>,
}

pub struct TypeDefModel {
    pub name: Seq<char>,
    pub docs: Option<Seq<Seq<char>>>,
    pub ty: TypeDefTyModel,
    pub typesmith: Option<Seq<Seq<char>>>,
}

impl IdlTypeDefinition {
    pub open spec fn model(self) -> TypeDefModel {
        TypeDefModel {
            name: self.name@,
            docs: docs_model(self.docs),
            ty: self.ty.model(),
            typesmith: match self.typesmith {
                None => None,
                Some(t) => Some(strs_model(t.seeds)),
            },
        }
    }
}

pub struct IdlEventField {
    pub name: String,
    pub ty: IdlType,
    pub index: bool,
}

pub struct EventFieldModel {
    pub name: Seq<char>,
    pub ty: TypeModel,
    pub index: bool,
}

impl IdlEventField {
    pub open spec fn model(self) -> EventFieldModel {
        EventFieldModel { name: self.name@, ty: self.ty.model(), index: self.index }
    }
}

pub struct IdlEvent {
    pub name: String,
    pub fields: Vec<IdlEventField>,
}

pub struct EventModel {
    pub name: Seq<char>,
    pub fields: Seq<EventFieldModel>,
}

impl IdlEvent {
    pub open spec fn model(self) -> EventModel {
        EventModel {
            name: self.name@,
            fields: self.fields@.map_values(|f: IdlEventField| f.model()),
        }
    }
}

pub struct IdlErrorCode {
    pub code: u32,
    pub name: String,
    pub msg: Option<String>,
}

pub struct ErrorCodeModel {
    pub code: u32,
    pub name: Seq<char>,
    pub msg: Option<Seq<char>>,
}

impl IdlErrorCode {
    pub open spec fn model(self) -> ErrorCodeModel {
        ErrorCodeModel {
            code: self.code,
            name: self.name@,
            msg: match self.msg {
                None => None,
                Some(m) => Some(m@),
            },
        }
    }
}

pub struct IdlConst {
    pub name: String,
    pub ty: IdlType,
    pub value: String,
}

pub struct ConstModel {
    pub name: Seq<char>,
    pub ty: TypeModel,
    pub value: Seq<char>,
}

impl IdlConst {
    pub open spec fn model(self) -> ConstModel {
        ConstModel { name: self.name@, ty: self.ty.model(), value: self.value@ }
    }
}

/// Seed descriptor for one account, produced by the external seed resolver
/// and copied verbatim into the document.
pub struct IdlPda {
    pub tokens: Vec<String>,
}

/// One leaf account of an instruction's account tree.
pub struct IdlAccount {
    pub name: String,
    pub is_mut: bool,
    pub is_signer: bool,
    pub is_optional: Option<bool>,
    pub docs: Option<Vec<String>>,
    pub pda: Option<IdlPda>,
    pub relations: Vec<String>,
    pub typesmith_derived: bool,
}

/// A named group of accounts mirroring a composite capability structure.
pub struct IdlAccounts {
    pub name: String,
    pub accounts: Vec<IdlAccountItem>,
}

pub enum IdlAccountItem {
    IdlAccount(IdlAccount),
    IdlAccounts(IdlAccounts),
}

pub struct AccountLeafModel {
    pub name: Seq<char>,
    pub is_mut: bool,
    pub is_signer: bool,
    pub is_optional: Option<bool>,
    pub docs: Option<Seq<Seq<char>>>,
    pub pda: Option<Seq<Seq<char>>>,
    pub relations: Seq<Seq<char>>,
    pub typesmith_derived: bool,
}

pub enum AccountItemModel {
    Leaf(AccountLeafModel),
    Group { name: Seq<char>, accounts: Seq<AccountItemModel> },
}

impl IdlAccountItem {
    pub open spec fn model(self) -> AccountItemModel
        decreases self,
    {
        match self {
            IdlAccountItem::IdlAccount(a) => AccountItemModel::Leaf(
                AccountLeafModel {
                    name: a.name@,
                    is_mut: a.is_mut,
                    is_signer: a.is_signer,
                    is_optional: a.is_optional,
                    docs: docs_model(a.docs),
                    pda: match a.pda {
                        None => None,
                        Some(p) => Some(strs_model(p.tokens)),
                    },
                    relations: strs_model(a.relations),
                    typesmith_derived: a.typesmith_derived,
                },
            ),
            IdlAccountItem::IdlAccounts(g) => AccountItemModel::Group {
                name: g.name@,
                accounts: Seq::new(
                    g.accounts@.len(),
                    |i: int|
                        if 0 <= i < g.accounts@.len() {
                            g.accounts@[i].model()
                        } else {
                            AccountItemModel::Group { name: Seq::empty(), accounts: Seq::empty() }
                        },
                ),
            },
        }
    }
}

pub open spec fn account_items_model(v: Seq<IdlAccountItem>) -> Seq<AccountItemModel> {
    v.map_values(|a: IdlAccountItem| a.model())
}

pub struct IdlInstruction {
    pub name: String,
    pub docs: Option<Vec<String>>,
    pub accounts: Vec<IdlAccountItem>,
    pub args: Vec<IdlField>,
    pub returns: Option<IdlType>,
}

pub struct InstructionModel {
    pub name: Seq<char>,
    pub docs: Option<Seq<Seq<char>>>,
    pub accounts: Seq<AccountItemModel>,
    pub args: Seq<FieldModel>,
    pub returns: Option<TypeModel>,
}

impl IdlInstruction {
    pub open spec fn model(self) -> InstructionModel {
        InstructionModel {
            name: self.name@,
            docs: docs_model(self.docs),
            accounts: account_items_model(self.accounts@),
            args: fields_model(self.args@),
            returns: match self.returns {
                None => None,
                Some(t) => Some(t.model()),
            },
        }
    }
}

/// The assembled interface-definition document.
pub struct Idl {
    pub version: String,
    pub name: String,
    pub docs: Option<Vec<String>>,
    pub instructions: Vec<IdlInstruction>,
    pub types: Vec<IdlTypeDefinition>,
    pub accounts: Vec<IdlTypeDefinition>,
    pub events: Option<Vec<IdlEvent>>,
    pub errors: Option<Vec<IdlErrorCode>>,
    pub metadata: Option<String>,
    pub constants: Vec<IdlConst>,
}

/// Errors that abort the whole extraction; each names the offending symbol
/// or the text that failed to resolve.
#[derive(Debug)]
pub enum ExtractError {
    /// Two constants share a name and integer type but differ in value.
    AmbiguousConstant(String),
    /// A type expression matched no recognized canonical shape.
    UnresolvedType(String),
    /// A composite account field references a structure absent from the map.
    UnresolvedAccountsReference(String),
    /// Composite account resolution exceeded the depth any acyclic
    /// composition can reach, so the composition graph must be cyclic.
    AccountsCycle(String),
    /// More than one enum carries the error-code tag.
    MultipleErrorEnums,
    /// A declaration carries the same capability tag more than once.
    MultipleTags(String),
    /// A serializable struct was declared with zero fields.
    EmptyStruct(String),
    /// An event struct has unit or positional fields.
    MalformedEventFields(String),
    /// A seed-type tag argument could not be read.
    MalformedSeedTag(String),
    /// A derived-argument tag argument could not be read.
    MalformedDerivedArgsTag(String),
    /// A structure deriving the account-capability trait could not be read
    /// as an account structure.
    UnparseableAccounts(String),
}


/// Copy a list of strings.
pub fn clone_strings(v: &Vec<String>) -> (r: Vec<String>)
    ensures
        r@ == v@,
{
    let mut r: Vec<String> = Vec::new();
    let mut j: usize = 0;
    while j < v.len()
        invariant
            j <= v@.len(),
            r@ == v@.take(j as int),
        decreases v@.len() - j,
    {
        r.push(v[j].clone());
        proof {
            assert(v@.take(j as int).push(v@[j as int]) =~= v@.take(j + 1));
        }
        j = j + 1;
    }
    proof {
        assert(v@.take(v@.len() as int) =~= v@);
    }
    r
}

/// Copy an optional doc-line list.
pub fn clone_docs(d: &Option<Vec<String>>) -> (r: Option<Vec<String>>)
    ensures
        docs_model(r) == docs_model(*d),
{
    match d {
        None => None,
        Some(v) => Some(clone_strings(v)),
    }
}

/// Doc lines propagated to the document, or suppressed.
pub open spec fn docs_sel(no_docs: bool, d: Option<Vec<String>>) -> Option<Seq<Seq<char>>> {
    if no_docs {
        None
    } else {
        docs_model(d)
    }
}

/// Copy a doc-line list under the suppression flag.
pub fn docs_out(no_docs: bool, d: &Option<Vec<String>>) -> (r: Option<Vec<String>>)
    ensures
        docs_model(r) == docs_sel(no_docs, *d),
{
    if no_docs {
        None
    } else {
        clone_docs(d)
    }
}

/// The seed descriptor as it appears in contracts.
pub open spec fn pda_model(o: Option<IdlPda>) -> Option<Seq<Seq<char>>> {
    match o {
        None => None,
        Some(p) => Some(strs_model(p.tokens)),
    }
}

/// Copy an optional seed descriptor.
pub fn clone_pda(o: &Option<IdlPda>) -> (r: Option<IdlPda>)
    ensures
        pda_model(r) == pda_model(*o),
{
    match o {
        None => None,
        Some(p) => Some(IdlPda { tokens: clone_strings(&p.tokens) }),
    }
}

} // verus!

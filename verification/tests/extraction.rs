//! End-to-end checks of the extraction engine on concrete declaration trees.

use idl_extract::accounts::idl_accounts;
use idl_extract::idl::{
    EnumFields, ExtractError, IdlAccountItem, IdlType, IdlTypeDefinitionTy,
};
use idl_extract::model::{
    AccountEntry, AccountLeaf, ArgDecl, ConstDecl, CrateContext, EnumDecl, FieldDecl, FieldsKind,
    InstructionDecl, ModDecl, StructDecl, Tag, VariantDecl, VariantFields,
};
use idl_extract::parse;
use idl_extract::records::parse_ty_defs;
use idl_extract::types::{resolve_variable_array_lengths, to_idl_type};

fn tag(name: &str) -> Tag {
    Tag { name: name.to_string(), args: vec![] }
}

fn tag_with(name: &str, args: &[&str]) -> Tag {
    Tag { name: name.to_string(), args: args.iter().map(|a| a.to_string()).collect() }
}

fn untagged_const(name: &str, ty: &str, value: &str) -> ConstDecl {
    ConstDecl { name: name.to_string(), tags: vec![], ty: ty.to_string(), value: value.to_string() }
}

fn field(name: &str, ty: &str) -> FieldDecl {
    FieldDecl { name: name.to_string(), docs: None, ty: ty.to_string(), tags: vec![] }
}

fn leaf(name: &str) -> AccountLeaf {
    AccountLeaf {
        name: name.to_string(),
        docs: None,
        is_mutable: false,
        has_signer_constraint: false,
        is_signer_type: false,
        seed: None,
        tags: vec![],
    }
}

fn empty_ctx() -> CrateContext {
    CrateContext { mods: vec![], structs: vec![], enums: vec![], consts: vec![] }
}

fn plain_struct(name: &str, tags: Vec<Tag>, fields: FieldsKind) -> StructDecl {
    StructDecl {
        name: name.to_string(),
        is_public: true,
        tags,
        docs: None,
        fields,
        entries: None,
    }
}

#[test]
fn array_length_constant_is_substituted() {
    let mut ctx = empty_ctx();
    ctx.consts.push(untagged_const("LEN", "usize", "7"));
    let t = to_idl_type(&ctx, &"[ u8 ; LEN ]".to_string()).unwrap();
    assert_eq!(t, IdlType::Array(Box::new(IdlType::U8), 7));
}

#[test]
fn array_length_cast_constant_is_substituted() {
    let mut ctx = empty_ctx();
    ctx.consts.push(untagged_const("LEN", "u8", "9"));
    let t = to_idl_type(&ctx, &"[ u16 ; LEN as usize ]".to_string()).unwrap();
    assert_eq!(t, IdlType::Array(Box::new(IdlType::U16), 9));
}

#[test]
fn multidimensional_arrays_substitute_each_dimension() {
    let mut ctx = empty_ctx();
    ctx.consts.push(untagged_const("INNER", "usize", "2"));
    ctx.consts.push(untagged_const("OUTER", "usize", "3"));
    let t = to_idl_type(&ctx, &"[ [ u8 ; INNER ] ; OUTER ]".to_string()).unwrap();
    assert_eq!(
        t,
        IdlType::Array(Box::new(IdlType::Array(Box::new(IdlType::U8), 2)), 3)
    );
}

#[test]
fn ambiguous_constant_is_fatal() {
    let mut ctx = empty_ctx();
    ctx.consts.push(untagged_const("LEN", "usize", "7"));
    ctx.consts.push(untagged_const("LEN", "usize", "8"));
    let r = to_idl_type(&ctx, &"[ u8 ; LEN ]".to_string());
    match r {
        Err(ExtractError::AmbiguousConstant(n)) => assert_eq!(n, "LEN"),
        _ => panic!("expected an ambiguous-constant error"),
    }
    let r2 = resolve_variable_array_lengths(&ctx, "[ u8 ; LEN ]".to_string());
    assert!(matches!(r2, Err(ExtractError::AmbiguousConstant(_))));
}

#[test]
fn substitution_rewrites_the_length_token() {
    let mut ctx = empty_ctx();
    ctx.consts.push(untagged_const("LEN", "usize", "7"));
    let out = resolve_variable_array_lengths(&ctx, "[ u8 ; LEN ]".to_string()).unwrap();
    assert_eq!(out, "[u8;7]");
}

#[test]
fn same_value_duplicate_constants_are_not_ambiguous() {
    let mut ctx = empty_ctx();
    ctx.consts.push(untagged_const("LEN", "usize", "7"));
    ctx.consts.push(untagged_const("LEN", "usize", "7"));
    let t = to_idl_type(&ctx, &"[ u8 ; LEN ]".to_string()).unwrap();
    assert_eq!(t, IdlType::Array(Box::new(IdlType::U8), 7));
}

#[test]
fn box_resolves_to_inner_type() {
    let ctx = empty_ctx();
    assert_eq!(
        to_idl_type(&ctx, &"Box < Foo >".to_string()).unwrap(),
        to_idl_type(&ctx, &"Foo".to_string()).unwrap()
    );
    assert_eq!(
        to_idl_type(&ctx, &"Box < u8 >".to_string()).unwrap(),
        IdlType::U8
    );
    assert_eq!(
        to_idl_type(&ctx, &"Box < Vec < u64 > >".to_string()).unwrap(),
        IdlType::Vector(Box::new(IdlType::U64))
    );
}

#[test]
fn substitution_does_not_reach_into_box_wrappers() {
    let mut ctx = empty_ctx();
    ctx.consts.push(untagged_const("LEN", "usize", "7"));
    assert!(matches!(
        to_idl_type(&ctx, &"Box < [ u8 ; LEN ] >".to_string()),
        Err(ExtractError::UnresolvedType(_))
    ));
    assert_eq!(
        to_idl_type(&ctx, &"[ u8 ; LEN ]".to_string()).unwrap(),
        IdlType::Array(Box::new(IdlType::U8), 7)
    );
}

#[test]
fn canonical_shapes_parse() {
    let ctx = empty_ctx();
    assert_eq!(to_idl_type(&ctx, &"bool".to_string()).unwrap(), IdlType::Bool);
    assert_eq!(to_idl_type(&ctx, &"i128".to_string()).unwrap(), IdlType::I128);
    assert_eq!(
        to_idl_type(&ctx, &"String".to_string()).unwrap(),
        IdlType::Str
    );
    assert_eq!(
        to_idl_type(&ctx, &"Vec < u8 >".to_string()).unwrap(),
        IdlType::Vector(Box::new(IdlType::U8))
    );
    assert_eq!(
        to_idl_type(&ctx, &"Option < String >".to_string()).unwrap(),
        IdlType::Opt(Box::new(IdlType::Str))
    );
    assert_eq!(
        to_idl_type(&ctx, &"( u8 , u16 )".to_string()).unwrap(),
        IdlType::Tuple(vec![IdlType::U8, IdlType::U16])
    );
    assert_eq!(
        to_idl_type(&ctx, &"[ u8 ; 4 ]".to_string()).unwrap(),
        IdlType::Array(Box::new(IdlType::U8), 4)
    );
    match to_idl_type(&ctx, &"MyAccount".to_string()).unwrap() {
        IdlType::Defined(n) => assert_eq!(n, "MyAccount"),
        other => panic!("expected a defined reference, got {:?}", other),
    }
}

#[test]
fn unrecognized_shapes_are_fatal() {
    let ctx = empty_ctx();
    assert!(matches!(
        to_idl_type(&ctx, &"& u8".to_string()),
        Err(ExtractError::UnresolvedType(_))
    ));
    assert!(matches!(
        to_idl_type(&ctx, &"Rc < u8 >".to_string()),
        Err(ExtractError::UnresolvedType(_))
    ));
    assert!(matches!(
        to_idl_type(&ctx, &"[ u8 ; stillaname ]".to_string()),
        Err(ExtractError::UnresolvedType(_))
    ));
}

fn accounts_struct(name: &str, entries: Vec<AccountEntry>) -> StructDecl {
    StructDecl {
        name: name.to_string(),
        is_public: true,
        tags: vec![tag_with("derive", &["Accounts"])],
        docs: None,
        fields: FieldsKind::Unit,
        entries: Some(entries),
    }
}

#[test]
fn account_tree_preserves_declaration_order() {
    let inner = accounts_struct("InnerAccounts", vec![AccountEntry::Leaf(leaf("vault_key"))]);
    let outer = accounts_struct(
        "OuterAccounts",
        vec![
            AccountEntry::Leaf(leaf("payer_one")),
            AccountEntry::Leaf(leaf("payer_two")),
            AccountEntry::Composite {
                name: "nested_group".to_string(),
                symbol: "InnerAccounts".to_string(),
            },
        ],
    );
    let global = vec![&inner, &outer];
    let items = idl_accounts(&outer, &global, false, false).unwrap();
    assert_eq!(items.len(), 3);
    match &items[0] {
        IdlAccountItem::IdlAccount(a) => assert_eq!(a.name, "payerOne"),
        _ => panic!("expected a leaf first"),
    }
    match &items[1] {
        IdlAccountItem::IdlAccount(a) => assert_eq!(a.name, "payerTwo"),
        _ => panic!("expected a leaf second"),
    }
    match &items[2] {
        IdlAccountItem::IdlAccounts(g) => {
            assert_eq!(g.name, "nestedGroup");
            assert_eq!(g.accounts.len(), 1);
            match &g.accounts[0] {
                IdlAccountItem::IdlAccount(a) => assert_eq!(a.name, "vaultKey"),
                _ => panic!("expected a leaf inside the group"),
            }
        },
        _ => panic!("expected a group third"),
    }
}

#[test]
fn signer_type_forces_signer_flag() {
    let mut l = leaf("authority");
    l.is_signer_type = true;
    let st = accounts_struct("OnlyAccounts", vec![AccountEntry::Leaf(l)]);
    let global = vec![&st];
    let items = idl_accounts(&st, &global, false, false).unwrap();
    match &items[0] {
        IdlAccountItem::IdlAccount(a) => assert!(a.is_signer),
        _ => panic!("expected a leaf"),
    }
}

#[test]
fn later_capability_structure_shadows_an_earlier_namesake() {
    let early = accounts_struct("Shared", vec![AccountEntry::Leaf(leaf("early_field"))]);
    let late = accounts_struct("Shared", vec![AccountEntry::Leaf(leaf("late_field"))]);
    let user = accounts_struct(
        "User",
        vec![AccountEntry::Composite { name: "inner".to_string(), symbol: "Shared".to_string() }],
    );
    let global = vec![&early, &late, &user];
    let items = idl_accounts(&user, &global, false, false).unwrap();
    match &items[0] {
        IdlAccountItem::IdlAccounts(g) => match &g.accounts[0] {
            IdlAccountItem::IdlAccount(a) => assert_eq!(a.name, "lateField"),
            _ => panic!("expected a leaf"),
        },
        _ => panic!("expected a group"),
    }
}

#[test]
fn missing_composite_reference_is_fatal() {
    let st = accounts_struct(
        "Broken",
        vec![AccountEntry::Composite { name: "x".to_string(), symbol: "Absent".to_string() }],
    );
    let global = vec![&st];
    assert!(matches!(
        idl_accounts(&st, &global, false, false),
        Err(ExtractError::UnresolvedAccountsReference(_))
    ));
}

#[test]
fn cyclic_composition_is_fatal() {
    let a = accounts_struct(
        "CycleA",
        vec![AccountEntry::Composite { name: "b".to_string(), symbol: "CycleB".to_string() }],
    );
    let b = accounts_struct(
        "CycleB",
        vec![AccountEntry::Composite { name: "a".to_string(), symbol: "CycleA".to_string() }],
    );
    let global = vec![&a, &b];
    assert!(matches!(
        idl_accounts(&a, &global, false, false),
        Err(ExtractError::AccountsCycle(_))
    ));
}

fn program_mod(name: &str, ixs: Vec<InstructionDecl>) -> ModDecl {
    ModDecl { name: name.to_string(), tags: vec![tag("program")], docs: None, instructions: ixs }
}

fn instruction(name: &str, accounts_name: &str) -> InstructionDecl {
    InstructionDecl {
        name: name.to_string(),
        docs: None,
        tags: vec![],
        args: vec![],
        accounts_name: accounts_name.to_string(),
        returns: "()".to_string(),
    }
}

#[test]
fn no_program_module_yields_no_document() {
    let ctx = empty_ctx();
    assert!(matches!(parse(&ctx, "0.1.0".to_string(), false, false), Ok(None)));
}

#[test]
fn two_program_modules_yield_no_document() {
    let mut ctx = empty_ctx();
    ctx.mods.push(program_mod("one", vec![]));
    ctx.mods.push(program_mod("two", vec![]));
    assert!(matches!(parse(&ctx, "0.1.0".to_string(), false, false), Ok(None)));
}

fn full_ctx() -> CrateContext {
    let mut ctx = empty_ctx();
    ctx.structs.push(accounts_struct("DoAccounts", vec![AccountEntry::Leaf(leaf("payer"))]));
    ctx.mods.push(program_mod(
        "my_program",
        vec![
            instruction("zeta_step", "DoAccounts"),
            instruction("alpha_step", "DoAccounts"),
        ],
    ));
    ctx.structs.push(plain_struct(
        "Zebra",
        vec![tag("account")],
        FieldsKind::Named(vec![field("value_one", "u8")]),
    ));
    ctx.structs.push(plain_struct(
        "Apple",
        vec![tag_with("derive", &["AnchorSerialize", "AnchorDeserialize"])],
        FieldsKind::Named(vec![field("value_two", "u16")]),
    ));
    ctx.structs.push(plain_struct(
        "Mango",
        vec![tag_with("derive", &["AnchorSerialize", "AnchorDeserialize"])],
        FieldsKind::Named(vec![field("value_three", "u32")]),
    ));
    ctx.consts.push(ConstDecl {
        name: "MAX_ITEMS".to_string(),
        tags: vec![tag("constant")],
        ty: "u64".to_string(),
        value: "100".to_string(),
    });
    ctx
}

#[test]
fn document_is_sorted_by_name() {
    let ctx = full_ctx();
    let idl = parse(&ctx, "0.1.0".to_string(), false, false).unwrap().unwrap();
    assert_eq!(idl.version, "0.1.0");
    assert_eq!(idl.name, "my_program");
    assert!(idl.metadata.is_none());
    assert_eq!(idl.instructions.len(), 2);
    assert_eq!(idl.instructions[0].name, "alphaStep");
    assert_eq!(idl.instructions[1].name, "zetaStep");
    let type_names: Vec<&str> = idl.types.iter().map(|t| t.name.as_str()).collect();
    assert_eq!(type_names, vec!["Apple", "Mango"]);
    let account_names: Vec<&str> = idl.accounts.iter().map(|t| t.name.as_str()).collect();
    assert_eq!(account_names, vec!["Zebra"]);
    assert!(idl.events.is_none());
    assert!(idl.errors.is_none());
    assert_eq!(idl.constants.len(), 1);
    assert_eq!(idl.constants[0].name, "MAX_ITEMS");
    assert_eq!(idl.constants[0].ty, IdlType::U64);
    assert_eq!(idl.constants[0].value, "100");
}

#[test]
fn positional_struct_never_appears() {
    let mut ctx = full_ctx();
    ctx.structs.push(plain_struct(
        "Sneaky",
        vec![tag("account"), tag_with("derive", &["AnchorSerialize", "AnchorDeserialize"])],
        FieldsKind::Positional(vec!["u8".to_string()]),
    ));
    let idl = parse(&ctx, "0.1.0".to_string(), false, false).unwrap().unwrap();
    assert!(idl.types.iter().all(|t| t.name != "Sneaky"));
    assert!(idl.accounts.iter().all(|t| t.name != "Sneaky"));
}

#[test]
fn unpackable_struct_yields_two_definitions() {
    let mut ctx = empty_ctx();
    ctx.structs.push(plain_struct(
        "Foo",
        vec![tag_with("derive", &["AnchorSerialize", "AnchorDeserialize", "Unpackable"])],
        FieldsKind::Named(vec![field("x", "u8")]),
    ));
    let defs = parse_ty_defs(&ctx, false).unwrap();
    assert_eq!(defs.len(), 2);
    assert_eq!(defs[0].name, "Foo");
    assert_eq!(defs[1].name, "FooUnpacked");
    for d in &defs {
        match &d.ty {
            IdlTypeDefinitionTy::Struct { fields } => {
                assert_eq!(fields.len(), 1);
                assert_eq!(fields[0].name, "x");
                assert_eq!(fields[0].ty, IdlType::U8);
            },
            _ => panic!("expected struct shapes"),
        }
    }
    assert!(defs[0].docs.is_none());
    assert_eq!(
        defs[1].docs,
        Some(vec!["Unpacked version of [`Foo`]".to_string()])
    );
}

#[test]
fn error_enum_codes_start_at_the_base_offset() {
    let mut ctx = full_ctx();
    ctx.enums.push(EnumDecl {
        name: "MyError".to_string(),
        is_public: true,
        tags: vec![tag("error_code")],
        docs: None,
        variants: vec![
            VariantDecl {
                name: "A".to_string(),
                docs: None,
                fields: VariantFields::Unit,
                msg: Some("a".to_string()),
            },
            VariantDecl {
                name: "B".to_string(),
                docs: None,
                fields: VariantFields::Unit,
                msg: Some("b".to_string()),
            },
        ],
    });
    let idl = parse(&ctx, "0.1.0".to_string(), false, false).unwrap().unwrap();
    let errors = idl.errors.unwrap();
    assert_eq!(errors.len(), 2);
    assert_eq!(errors[0].code, 6000);
    assert_eq!(errors[0].name, "A");
    assert_eq!(errors[0].msg, Some("a".to_string()));
    assert_eq!(errors[1].code, 6001);
    assert_eq!(errors[1].name, "B");
    assert_eq!(errors[1].msg, Some("b".to_string()));
    assert!(idl.types.iter().all(|t| t.name != "MyError"));
    assert!(idl.accounts.iter().all(|t| t.name != "MyError"));
}

#[test]
fn event_fields_carry_index_flags() {
    let mut ctx = full_ctx();
    let mut fa = field("a", "u8");
    fa.tags.push(tag("index"));
    let fb = field("b", "u16");
    ctx.structs.push(plain_struct(
        "Deposited",
        vec![tag("event")],
        FieldsKind::Named(vec![fa, fb]),
    ));
    let idl = parse(&ctx, "0.1.0".to_string(), false, false).unwrap().unwrap();
    let events = idl.events.unwrap();
    assert_eq!(events.len(), 1);
    assert_eq!(events[0].name, "Deposited");
    assert_eq!(events[0].fields.len(), 2);
    assert_eq!(events[0].fields[0].name, "a");
    assert!(events[0].fields[0].index);
    assert_eq!(events[0].fields[1].name, "b");
    assert!(!events[0].fields[1].index);
    assert!(idl.types.iter().all(|t| t.name != "Deposited"));
}

#[test]
fn events_are_sorted_by_name() {
    let mut ctx = full_ctx();
    for name in ["Second", "First"] {
        ctx.structs.push(plain_struct(
            name,
            vec![tag("event")],
            FieldsKind::Named(vec![field("a", "u8")]),
        ));
    }
    let idl = parse(&ctx, "1".to_string(), false, false).unwrap().unwrap();
    let events = idl.events.unwrap();
    let names: Vec<&str> = events.iter().map(|e| e.name.as_str()).collect();
    assert_eq!(names, vec!["First", "Second"]);
}

#[test]
fn derived_arguments_match_case_insensitively() {
    let mut ctx = empty_ctx();
    ctx.structs.push(accounts_struct("DoAccounts", vec![]));
    let mut ix = instruction("move_funds", "DoAccounts");
    ix.tags.push(tag_with("derived_args", &["Amount"]));
    ix.args.push(ArgDecl { name: "AMOUNT".to_string(), docs: None, ty: "u64".to_string() });
    ix.args.push(ArgDecl { name: "other_arg".to_string(), docs: None, ty: "u8".to_string() });
    ctx.mods.push(program_mod("prog", vec![ix]));
    let idl = parse(&ctx, "1".to_string(), false, false).unwrap().unwrap();
    assert_eq!(idl.instructions[0].name, "moveFunds");
    assert_eq!(idl.instructions[0].args[0].name, "amount");
    assert!(idl.instructions[0].args[0].typesmith_derived);
    assert_eq!(idl.instructions[0].args[1].name, "otherArg");
    assert!(!idl.instructions[0].args[1].typesmith_derived);
    assert!(idl.instructions[0].returns.is_none());
}

#[test]
fn instruction_return_type_is_resolved() {
    let mut ctx = empty_ctx();
    ctx.structs.push(accounts_struct("DoAccounts", vec![]));
    let mut ix = instruction("compute", "DoAccounts");
    ix.returns = "u64".to_string();
    ctx.mods.push(program_mod("prog", vec![ix]));
    let idl = parse(&ctx, "1".to_string(), false, false).unwrap().unwrap();
    assert_eq!(idl.instructions[0].returns, Some(IdlType::U64));
}

#[test]
fn missing_accounts_association_is_fatal() {
    let mut ctx = empty_ctx();
    ctx.mods.push(program_mod("prog", vec![instruction("go", "Nowhere")]));
    assert!(matches!(
        parse(&ctx, "1".to_string(), false, false),
        Err(ExtractError::UnresolvedAccountsReference(_))
    ));
}

#[test]
fn two_error_enums_are_fatal() {
    let mut ctx = full_ctx();
    for name in ["E1", "E2"] {
        ctx.enums.push(EnumDecl {
            name: name.to_string(),
            is_public: true,
            tags: vec![tag("error_code")],
            docs: None,
            variants: vec![],
        });
    }
    assert!(matches!(
        parse(&ctx, "1".to_string(), false, false),
        Err(ExtractError::MultipleErrorEnums)
    ));
}

#[test]
fn repeated_event_tag_is_fatal() {
    let mut ctx = full_ctx();
    ctx.structs.push(plain_struct(
        "Twice",
        vec![tag("event"), tag("event")],
        FieldsKind::Named(vec![field("a", "u8")]),
    ));
    assert!(matches!(
        parse(&ctx, "1".to_string(), false, false),
        Err(ExtractError::MultipleTags(_))
    ));
}

#[test]
fn unit_serializable_struct_is_fatal() {
    let mut ctx = full_ctx();
    ctx.structs.push(plain_struct("Empty", vec![tag("account")], FieldsKind::Unit));
    assert!(matches!(
        parse(&ctx, "1".to_string(), false, false),
        Err(ExtractError::EmptyStruct(_))
    ));
}

#[test]
fn positional_event_fields_are_fatal() {
    let mut ctx = full_ctx();
    ctx.structs.push(plain_struct(
        "BadEvent",
        vec![tag("event")],
        FieldsKind::Positional(vec!["u8".to_string()]),
    ));
    assert!(matches!(
        parse(&ctx, "1".to_string(), false, false),
        Err(ExtractError::MalformedEventFields(_))
    ));
}

#[test]
fn empty_seed_token_is_fatal() {
    let mut ctx = full_ctx();
    ctx.structs.push(plain_struct(
        "Seeded",
        vec![tag("account"), tag_with("seeds", &["good", ""])],
        FieldsKind::Named(vec![field("a", "u8")]),
    ));
    assert!(matches!(
        parse(&ctx, "1".to_string(), false, false),
        Err(ExtractError::MalformedSeedTag(_))
    ));
}

#[test]
fn seed_metadata_is_recorded() {
    let mut ctx = empty_ctx();
    ctx.structs.push(plain_struct(
        "Seeded",
        vec![tag("account"), tag_with("seeds", &["u64", "publicKey"])],
        FieldsKind::Named(vec![field("a", "u8")]),
    ));
    let defs = parse_ty_defs(&ctx, false).unwrap();
    let ts = defs[0].typesmith.as_ref().unwrap();
    assert_eq!(ts.seeds, vec!["u64".to_string(), "publicKey".to_string()]);
}

#[test]
fn empty_derived_args_token_is_fatal() {
    let mut ctx = empty_ctx();
    ctx.structs.push(accounts_struct("DoAccounts", vec![]));
    let mut ix = instruction("go", "DoAccounts");
    ix.tags.push(tag_with("derived_args", &[""]));
    ctx.mods.push(program_mod("prog", vec![ix]));
    assert!(matches!(
        parse(&ctx, "1".to_string(), false, false),
        Err(ExtractError::MalformedDerivedArgsTag(_))
    ));
}

#[test]
fn unreadable_capability_struct_is_fatal() {
    let mut ctx = full_ctx();
    let mut bad = accounts_struct("Bad", vec![]);
    bad.entries = None;
    ctx.structs.push(bad);
    assert!(matches!(
        parse(&ctx, "1".to_string(), false, false),
        Err(ExtractError::UnparseableAccounts(_))
    ));
}

#[test]
fn private_structs_are_silently_dropped() {
    let mut ctx = empty_ctx();
    let mut s = plain_struct(
        "Hidden",
        vec![tag("account")],
        FieldsKind::Named(vec![field("a", "u8")]),
    );
    s.is_public = false;
    ctx.structs.push(s);
    let defs = parse_ty_defs(&ctx, false).unwrap();
    assert!(defs.is_empty());
}

#[test]
fn no_docs_flag_suppresses_docs() {
    let mut ctx = empty_ctx();
    let mut s = plain_struct(
        "Documented",
        vec![tag("account")],
        FieldsKind::Named(vec![field("a", "u8")]),
    );
    s.docs = Some(vec!["a line".to_string()]);
    ctx.structs.push(s);
    let with_docs = parse_ty_defs(&ctx, false).unwrap();
    assert_eq!(with_docs[0].docs, Some(vec!["a line".to_string()]));
    let without = parse_ty_defs(&ctx, true).unwrap();
    assert!(without[0].docs.is_none());
}

#[test]
fn enum_variants_keep_their_shapes() {
    let mut ctx = empty_ctx();
    ctx.enums.push(EnumDecl {
        name: "Shape".to_string(),
        is_public: true,
        tags: vec![tag_with("derive", &["AnchorSerialize", "AnchorDeserialize"])],
        docs: None,
        variants: vec![
            VariantDecl {
                name: "Unitary".to_string(),
                docs: None,
                fields: VariantFields::Unit,
                msg: None,
            },
            VariantDecl {
                name: "Pair".to_string(),
                docs: None,
                fields: VariantFields::Tuple(vec!["u8".to_string(), "u16".to_string()]),
                msg: None,
            },
            VariantDecl {
                name: "Record".to_string(),
                docs: None,
                fields: VariantFields::Named(vec![field("inner_value", "u32")]),
                msg: None,
            },
        ],
    });
    let defs = parse_ty_defs(&ctx, false).unwrap();
    assert_eq!(defs.len(), 1);
    match &defs[0].ty {
        IdlTypeDefinitionTy::Enum { variants } => {
            assert_eq!(variants.len(), 3);
            assert!(variants[0].fields.is_none());
            match variants[1].fields.as_ref().unwrap() {
                EnumFields::Tuple(ts) => {
                    assert_eq!(ts, &vec![IdlType::U8, IdlType::U16]);
                },
                _ => panic!("expected tuple fields"),
            }
            match variants[2].fields.as_ref().unwrap() {
                EnumFields::Named(fs) => {
                    assert_eq!(fs[0].name, "inner_value");
                    assert_eq!(fs[0].ty, IdlType::U32);
                },
                _ => panic!("expected named fields"),
            }
        },
        _ => panic!("expected an enum"),
    }
}

#[test]
fn pda_descriptor_passes_through_under_the_seeds_flag() {
    let mut l = leaf("vault");
    l.seed = Some(idl_extract::idl::IdlPda { tokens: vec!["seed_one".to_string()] });
    let st = accounts_struct("PdaAccounts", vec![AccountEntry::Leaf(l)]);
    let global = vec![&st];
    let with = idl_accounts(&st, &global, true, false).unwrap();
    match &with[0] {
        IdlAccountItem::IdlAccount(a) => {
            assert_eq!(a.pda.as_ref().unwrap().tokens, vec!["seed_one".to_string()]);
        },
        _ => panic!("expected a leaf"),
    }
    let without = idl_accounts(&st, &global, false, false).unwrap();
    match &without[0] {
        IdlAccountItem::IdlAccount(a) => assert!(a.pda.is_none()),
        _ => panic!("expected a leaf"),
    }
}

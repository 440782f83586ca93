use surreal_tooling::attrs::{
    function_export_name, helper_ident, mod_item_actions, module_export_prefix, parse_surrealism_attr, parse_surrealism_attrs,
    process_mod_items, sentinel_const_name, validate_export_name, AttrError, AttrFlags, AttrMeta, HelperKind,
    ItemAction, MetaArg, ModItem,
};
use surreal_tooling::signature::{
    extract_fn_signature, type_contains_ident, BoundPath, FnInput, FnOutput, FnSignature, GenericArg, PathArgs, PathSegment,
    ReturnShape, SignatureError, TypeTree,
};

fn word(w: &str) -> MetaArg {
    MetaArg::Path { ident: Some(w.to_string()) }
}

fn name(v: &str) -> MetaArg {
    MetaArg::NameValue { ident: Some("name".to_string()), str_value: Some(v.to_string()) }
}

#[test]
fn export_name_validation() {
    assert!(validate_export_name("foo").is_ok());
    assert!(validate_export_name("foo::bar_2::Baz").is_ok());
    assert_eq!(validate_export_name(""), Err(AttrError::InvalidExportName));
    assert_eq!(validate_export_name("foo::"), Err(AttrError::InvalidExportName));
    assert_eq!(validate_export_name("foo:::bar"), Err(AttrError::InvalidExportName));
    assert_eq!(validate_export_name("foo:bar"), Err(AttrError::InvalidExportName));
    assert_eq!(validate_export_name("foo-bar"), Err(AttrError::InvalidExportName));
    assert_eq!(validate_export_name("::foo"), Err(AttrError::InvalidExportName));
}

#[test]
fn attribute_arguments() {
    let f = parse_surrealism_attrs(&[word("default"), word("writeable")]).unwrap();
    assert!(f.is_default && f.is_writeable && !f.is_init && f.export_name.is_none());
    let f = parse_surrealism_attrs(&[name("a::b"), word("init"), name("c")]).unwrap();
    assert_eq!(f.export_name.as_deref(), Some("c"));
    assert!(f.is_init);
    let ignored = MetaArg::NameValue { ident: Some("name".to_string()), str_value: None };
    assert!(parse_surrealism_attrs(&[ignored]).unwrap().export_name.is_none());
    assert_eq!(parse_surrealism_attrs(&[name("bad name")]).err(), Some(AttrError::InvalidExportName));
    assert_eq!(parse_surrealism_attrs(&[word("other")]).err(), Some(AttrError::UnsupportedArgument));
    assert_eq!(parse_surrealism_attrs(&[MetaArg::List]).err(), Some(AttrError::UnsupportedArgument));
    let nv_default = MetaArg::NameValue { ident: Some("default".to_string()), str_value: Some("x".to_string()) };
    assert_eq!(parse_surrealism_attrs(&[nv_default]).err(), Some(AttrError::UnsupportedArgument));
    assert_eq!(parse_surrealism_attr(&AttrMeta::NameValue).err(), Some(AttrError::TopLevelNameValue));
    let bare = parse_surrealism_attr(&AttrMeta::Path).unwrap();
    assert!(!bare.is_default && !bare.is_init && !bare.is_writeable && bare.export_name.is_none());
}

#[test]
fn sentinel_names() {
    assert_eq!(sentinel_const_name(None), "__sr_export_default");
    assert_eq!(sentinel_const_name(Some("foo")), "__sr_export__foo");
    assert_eq!(sentinel_const_name(Some("a_s")), "__sr_export__a_us");
    assert_eq!(sentinel_const_name(Some("a::s")), "__sr_export__a_ss");
    assert_eq!(sentinel_const_name(Some("x:::y")), "__sr_export__x_s:y");
    assert_ne!(sentinel_const_name(Some("a_s")), sentinel_const_name(Some("a::s")));
    let ident = sentinel_const_name(Some("m::inner::g_1"));
    assert_eq!(ident, "__sr_export__m_sinner_sg_u1");
    assert!(ident.chars().all(|c| c.is_ascii_alphanumeric() || c == '_'));
}

#[test]
fn function_and_module_names() {
    assert_eq!(function_export_name(true, Some("x".to_string()), "f"), Ok(None));
    assert_eq!(function_export_name(false, None, "f"), Ok(Some("f".to_string())));
    assert_eq!(function_export_name(false, Some("g".to_string()), "f"), Ok(Some("g".to_string())));
    assert_eq!(function_export_name(false, None, "default"), Err(AttrError::ReservedDefaultName));
    let flags = |d: bool, i: bool, n: Option<&str>| AttrFlags {
        is_default: d,
        export_name: n.map(|s| s.to_string()),
        is_init: i,
        is_writeable: false,
    };
    assert_eq!(module_export_prefix(&flags(false, false, None), "math"), Ok("math".to_string()));
    assert_eq!(module_export_prefix(&flags(false, false, Some("m")), "math"), Ok("m".to_string()));
    assert_eq!(module_export_prefix(&flags(true, false, None), "math"), Err(AttrError::DefaultOnModule));
    assert_eq!(module_export_prefix(&flags(false, true, None), "math"), Err(AttrError::InitOnModule));
}

fn func(ident: &str, attr: Option<AttrMeta>, ok: bool) -> ModItem {
    ModItem::Fn { ident: ident.to_string(), attr, signature_ok: ok }
}

#[test]
fn module_items() {
    let inner = vec![func("sub", Some(AttrMeta::Path), true), func("dflt", Some(AttrMeta::List(vec![word("default")])), true)];
    let items = vec![
        func("add", Some(AttrMeta::Path), true),
        func("plain", None, true),
        func("renamed", Some(AttrMeta::List(vec![name("mul")])), true),
        func("selfish", Some(AttrMeta::Path), false),
        ModItem::Other,
        ModItem::Mod { ident: "nested".to_string(), attr: Some(AttrMeta::Path), items: Some(inner) },
        ModItem::Mod { ident: "skipped".to_string(), attr: None, items: None },
    ];
    let names = process_mod_items("math", &items).unwrap();
    assert_eq!(names, vec!["math::add", "math::mul", "math::nested::sub", "math::nested"]);
    let bad = vec![func("f", Some(AttrMeta::List(vec![word("init")])), true)];
    assert_eq!(process_mod_items("m", &bad).err(), Some(AttrError::InitInsideModule));
    let no_body = vec![ModItem::Mod { ident: "x".to_string(), attr: Some(AttrMeta::Path), items: None }];
    assert_eq!(process_mod_items("m", &no_body).err(), Some(AttrError::ModuleWithoutBody));
    let default_mod = vec![ModItem::Mod { ident: "x".to_string(), attr: Some(AttrMeta::List(vec![word("default")])), items: Some(vec![]) }];
    assert_eq!(process_mod_items("m", &default_mod).err(), Some(AttrError::DefaultOnModule));
    let reserved = vec![func("f", Some(AttrMeta::List(vec![word("default")])), true)];
    assert_eq!(process_mod_items("default", &reserved).err(), Some(AttrError::ReservedDefaultName));
}

fn names_of(actions: &[ItemAction], out: &mut Vec<String>) {
    for a in actions {
        match a {
            ItemAction::Register { export_name, .. } => out.push(export_name.clone()),
            ItemAction::Recurse { actions } => names_of(actions, out),
            _ => {}
        }
    }
}

#[test]
fn module_item_actions() {
    let inner = vec![func("g", Some(AttrMeta::Path), true)];
    let items = vec![
        func("f", Some(AttrMeta::List(vec![word("writeable")])), true),
        func("plain", None, true),
        func("selfish", Some(AttrMeta::Path), false),
        ModItem::Mod { ident: "inner".to_string(), attr: Some(AttrMeta::Path), items: Some(inner) },
        ModItem::Other,
    ];
    let actions = mod_item_actions("m", &items).unwrap();
    assert_eq!(actions.len(), 5);
    match &actions[0] {
        ItemAction::Register { export_name, writeable } => {
            assert_eq!(export_name, "m::f");
            assert!(*writeable);
        }
        _ => panic!("expected a registration"),
    }
    assert!(matches!(actions[1], ItemAction::Keep));
    assert!(matches!(actions[2], ItemAction::SignatureError));
    match &actions[3] {
        ItemAction::Recurse { actions } => {
            assert_eq!(actions.len(), 1);
            assert!(matches!(&actions[0], ItemAction::Register { export_name, writeable: false } if export_name == "m::inner::g"));
        }
        _ => panic!("expected a nested module"),
    }
    assert!(matches!(actions[4], ItemAction::Keep));
    let mut names = Vec::new();
    names_of(&actions, &mut names);
    assert_eq!(names, process_mod_items("m", &items).unwrap());
    assert_eq!(names, vec!["m::f", "m::inner::g"]);
    let bad = vec![ModItem::Mod { ident: "x".to_string(), attr: Some(AttrMeta::List(vec![word("init")])), items: Some(vec![]) }];
    assert_eq!(mod_item_actions("m", &bad).err(), Some(AttrError::InitOnModule));
}

#[test]
fn helper_names() {
    assert_eq!(helper_ident(HelperKind::Invoke, "add"), "__sr_invoke_add");
    assert_eq!(helper_ident(HelperKind::Init, "setup"), "__sr_init_setup");
    assert_eq!(helper_ident(HelperKind::Args, "add"), "__sr_args_add");
    assert_eq!(helper_ident(HelperKind::Returns, "add"), "__sr_returns_add");
}

fn path(segs: Vec<(&str, PathArgs)>) -> TypeTree {
    TypeTree::Path(segs.into_iter().map(|(i, a)| PathSegment { ident: i.to_string(), arguments: a }).collect())
}

#[test]
fn self_reference_in_types() {
    let node = || path(vec![("Node", PathArgs::Bare)]);
    let vec_node = path(vec![("Vec", PathArgs::AngleBracketed(vec![GenericArg::Type(node())]))]);
    assert!(type_contains_ident(&vec_node, "Node"));
    assert!(!type_contains_ident(&vec_node, "Other"));
    let tuple = TypeTree::Tuple(vec![path(vec![("u8", PathArgs::Bare)]), TypeTree::Reference(Box::new(node()))]);
    assert!(type_contains_ident(&tuple, "Node"));
    let func_ty = path(vec![(
        "Fn",
        PathArgs::Parenthesized { inputs: vec![], output: Some(Box::new(TypeTree::Slice(Box::new(node())))) },
    )]);
    assert!(type_contains_ident(&func_ty, "Node"));
    assert!(!type_contains_ident(&TypeTree::Other, "Node"));
    let lifetime_only = path(vec![("Cow", PathArgs::AngleBracketed(vec![GenericArg::Other]))]);
    assert!(!type_contains_ident(&lifetime_only, "Node"));
    // *const Node
    assert!(type_contains_ident(&TypeTree::Ptr(Box::new(node())), "Node"));
    // Box<dyn Bar<Node>>
    let bar_node = BoundPath {
        segments: vec![PathSegment {
            ident: "Bar".to_string(),
            arguments: PathArgs::AngleBracketed(vec![GenericArg::Type(node())]),
        }],
    };
    let boxed_dyn = path(vec![(
        "Box",
        PathArgs::AngleBracketed(vec![GenericArg::Type(TypeTree::TraitObject(vec![bar_node]))]),
    )]);
    assert!(type_contains_ident(&boxed_dyn, "Node"));
    assert!(type_contains_ident(&boxed_dyn, "Bar"));
    assert!(!type_contains_ident(&boxed_dyn, "Baz"));
    // fn(Node) and fn() -> Node
    let fn_in = TypeTree::BareFn { inputs: vec![node()], output: None };
    assert!(type_contains_ident(&fn_in, "Node"));
    let fn_out = TypeTree::BareFn { inputs: vec![], output: Some(Box::new(node())) };
    assert!(type_contains_ident(&fn_out, "Node"));
    // impl Iterator<Item = Node>
    let iter = TypeTree::ImplTrait(vec![BoundPath {
        segments: vec![PathSegment {
            ident: "Iterator".to_string(),
            arguments: PathArgs::AngleBracketed(vec![GenericArg::AssocType(node())]),
        }],
    }]);
    assert!(type_contains_ident(&iter, "Node"));
    assert!(!type_contains_ident(&iter, "Item"));
    // <Node as Trait>::Out
    let qualified = TypeTree::Qualified {
        qself: Box::new(node()),
        path: vec![
            PathSegment { ident: "Trait".to_string(), arguments: PathArgs::Bare },
            PathSegment { ident: "Out".to_string(), arguments: PathArgs::Bare },
        ],
    };
    assert!(type_contains_ident(&qualified, "Node"));
    assert!(type_contains_ident(&qualified, "Out"));
    // Whole identifiers only.
    assert!(!type_contains_ident(&node(), "Nod"));
}

#[test]
fn signatures() {
    let result_ty = path(vec![
        ("anyhow", PathArgs::Bare),
        ("Result", PathArgs::AngleBracketed(vec![GenericArg::Type(path(vec![("i64", PathArgs::Bare)]))])),
    ]);
    let sig = FnSignature { inputs: vec![FnInput::Typed, FnInput::Typed], output: FnOutput::Type(result_ty) };
    let info = extract_fn_signature(&sig).unwrap();
    assert_eq!(info.arg_count, 2);
    assert_eq!(info.result, ReturnShape::ResultOf);
    let unit = FnSignature { inputs: vec![], output: FnOutput::Default };
    assert_eq!(extract_fn_signature(&unit).unwrap().result, ReturnShape::Unit);
    let plain = FnSignature { inputs: vec![], output: FnOutput::Type(path(vec![("Results", PathArgs::Bare)])) };
    assert_eq!(extract_fn_signature(&plain).unwrap().result, ReturnShape::Plain);
    let bare_result = FnSignature { inputs: vec![], output: FnOutput::Type(path(vec![("Result", PathArgs::Bare)])) };
    assert_eq!(extract_fn_signature(&bare_result).unwrap().result, ReturnShape::Plain);
    let method = FnSignature { inputs: vec![FnInput::Receiver, FnInput::Typed], output: FnOutput::Default };
    assert_eq!(extract_fn_signature(&method).err(), Some(SignatureError::SelfReceiver));
}

use pointer_kinds::PointerKind;
use pointer_kinds::SrcSpan;
use pointer_kinds::ast::Expr;
use pointer_kinds::ast::Field;
use pointer_kinds::ast::FnArg;
use pointer_kinds::ast::Item;
use pointer_kinds::ast::ItemFn;
use pointer_kinds::ast::ItemStruct;
use pointer_kinds::ast::Local;
use pointer_kinds::ast::Pat;
use pointer_kinds::ast::ReturnType;
use pointer_kinds::ast::Stmt;
use pointer_kinds::ast::TypeAnn;
use pointer_kinds::ast::check_file;
use pointer_kinds::records::FnRecord;
use pointer_kinds::records::NamedKind;
use pointer_kinds::records::Record;
use pointer_kinds::records::StructRecord;
use pointer_kinds::records::WalkError;
use pointer_kinds::span::lines_offsets;
use pointer_kinds::walker::parse_file;
use pointer_kinds::walker::parse_item;
use pointer_kinds::walker::pattern_to_name;
use pointer_kinds::walker::pattern_to_type;

fn ann(start_line: usize, start_col: usize, end_line: usize, end_col: usize) -> TypeAnn {
    TypeAnn { span: SrcSpan { start_line, start_col, end_line, end_col } }
}

fn ident(name: &str) -> Pat {
    Pat::Ident { name: name.to_string() }
}

fn typed_local(name: &str, ty: TypeAnn) -> Stmt {
    Stmt::Local(Local { pat: Pat::Typed { inner: Box::new(ident(name)), ty } })
}

fn untyped_local(name: &str) -> Stmt {
    Stmt::Local(Local { pat: ident(name) })
}

fn named(name: &str, kind: PointerKind) -> NamedKind {
    NamedKind { name: name.to_string(), kind }
}

#[test]
fn struct_with_owned_and_raw_const_fields() {
    let src = String::from("Option<Box<u8>>\n*const u8\n");
    let items = vec![Item::Struct(ItemStruct {
        name: "Holder".to_string(),
        fields: vec![
            Field { name: Some("a".to_string()), ty: ann(1, 0, 1, 15) },
            Field { name: Some("b".to_string()), ty: ann(2, 0, 2, 9) },
        ],
    })];
    assert!(check_file(&items, &src));
    let records = parse_file(&items, &src).unwrap();
    assert_eq!(
        records,
        vec![Record::Struct(StructRecord {
            name: "Holder".to_string(),
            fields: vec![named("a", PointerKind::Move), named("b", PointerKind::RawConst)],
        })]
    );
}

#[test]
fn function_with_mut_arg_inferred_return_and_plain_local() {
    let src = String::from("Option<&mut i32>\ni32\n");
    let items = vec![Item::Fn(ItemFn {
        name: "f".to_string(),
        args: vec![FnArg::Typed { pat: ident("a"), ty: ann(1, 0, 1, 16) }],
        output: ReturnType::Default,
        body: vec![typed_local("x", ann(2, 0, 2, 3))],
    })];
    assert!(check_file(&items, &src));
    let records = parse_file(&items, &src).unwrap();
    assert_eq!(
        records,
        vec![Record::Function(FnRecord {
            name: "f".to_string(),
            return_kind: PointerKind::Inferred,
            args: vec![named("a", PointerKind::Mut)],
            variables: vec![named("x", PointerKind::NonePointerKind)],
        })]
    );
}

#[test]
fn declared_plain_return_type_is_none_kind() {
    let src = String::from("i32");
    let items = vec![Item::Fn(ItemFn {
        name: "g".to_string(),
        args: vec![],
        output: ReturnType::Annotated(ann(1, 0, 1, 3)),
        body: vec![],
    })];
    let records = parse_file(&items, &src).unwrap();
    match &records[0] {
        Record::Function(f) => assert_eq!(f.return_kind, PointerKind::NonePointerKind),
        _ => panic!("expected a function record"),
    }
}

#[test]
fn local_nested_in_loop_in_conditional_in_unsafe_found_once() {
    let inner_loop = Stmt::Expr(Expr::Loop(vec![untyped_local("deep")]));
    let conditional = Stmt::Expr(Expr::If { then_branch: vec![inner_loop], else_branch: None });
    let body = vec![Stmt::Expr(Expr::Unsafe(vec![conditional]))];
    let src = String::new();
    let items = vec![Item::Fn(ItemFn {
        name: "h".to_string(),
        args: vec![],
        output: ReturnType::Default,
        body,
    })];
    let records = parse_file(&items, &src).unwrap();
    match &records[0] {
        Record::Function(f) => {
            assert_eq!(f.variables, vec![named("deep", PointerKind::Inferred)]);
        }
        _ => panic!("expected a function record"),
    }
}

#[test]
fn variables_traverses_group_const_while_and_for() {
    let const_block = Stmt::Expr(Expr::ConstBlock(vec![untyped_local("a")]));
    let while_loop = Stmt::Expr(Expr::While(vec![untyped_local("b")]));
    let for_loop = Stmt::Expr(Expr::ForLoop(vec![untyped_local("c")]));
    let inner = Expr::Block(vec![const_block, while_loop, for_loop, Stmt::Other, Stmt::Expr(
        Expr::Other,
    )]);
    let grouped = Stmt::Expr(Expr::Group(Box::new(inner)));
    let expr = Expr::Block(vec![grouped]);
    let vars = expr.variables();
    assert_eq!(vars.len(), 3);
    assert!(matches!(&vars[0].pat, Pat::Ident { name } if name == "a"));
    assert!(matches!(&vars[1].pat, Pat::Ident { name } if name == "b"));
    assert!(matches!(&vars[2].pat, Pat::Ident { name } if name == "c"));
}

#[test]
fn else_if_chain_yields_every_branch() {
    let last_else = Expr::Block(vec![untyped_local("d")]);
    let third = Expr::If {
        then_branch: vec![untyped_local("c")],
        else_branch: Some(Box::new(last_else)),
    };
    let second = Expr::If {
        then_branch: vec![untyped_local("b")],
        else_branch: Some(Box::new(third)),
    };
    let first = Expr::If {
        then_branch: vec![untyped_local("a")],
        else_branch: Some(Box::new(second)),
    };
    let src = String::new();
    let items = vec![Item::Fn(ItemFn {
        name: "chain".to_string(),
        args: vec![],
        output: ReturnType::Default,
        body: vec![Stmt::Expr(first)],
    })];
    let records = parse_file(&items, &src).unwrap();
    match &records[0] {
        Record::Function(f) => {
            assert_eq!(
                f.variables,
                vec![
                    named("a", PointerKind::Inferred),
                    named("b", PointerKind::Inferred),
                    named("c", PointerKind::Inferred),
                    named("d", PointerKind::Inferred),
                ]
            );
        }
        _ => panic!("expected a function record"),
    }
}

fn deterministic_input() -> (Vec<Item>, String) {
    let src = String::from("Option<Box<u8>>\n*mut u8\nOption<&u8>\n");
    let items = vec![
        Item::Fn(ItemFn {
            name: "walk".to_string(),
            args: vec![FnArg::Typed { pat: ident("p"), ty: ann(1, 0, 1, 15) }],
            output: ReturnType::Annotated(ann(2, 0, 2, 8)),
            body: vec![typed_local("v", ann(3, 0, 3, 11))],
        }),
        Item::Struct(ItemStruct {
            name: "Pair".to_string(),
            fields: vec![Field { name: Some("left".to_string()), ty: ann(2, 0, 2, 8) }],
        }),
    ];
    (items, src)
}

#[test]
fn walking_twice_gives_identical_records() {
    let (items1, src1) = deterministic_input();
    let (items2, src2) = deterministic_input();
    let first = parse_file(&items1, &src1).unwrap();
    let second = parse_file(&items2, &src2).unwrap();
    assert_eq!(first, second);
}

#[test]
fn other_items_are_filtered_in_order() {
    let src = String::from("*mut u8\n");
    let items = vec![
        Item::Other,
        Item::Fn(ItemFn {
            name: "first".to_string(),
            args: vec![],
            output: ReturnType::Default,
            body: vec![],
        }),
        Item::Other,
        Item::Struct(ItemStruct {
            name: "Second".to_string(),
            fields: vec![Field { name: Some("p".to_string()), ty: ann(1, 0, 1, 7) }],
        }),
    ];
    let records = parse_file(&items, &src).unwrap();
    assert_eq!(records.len(), 2);
    assert!(matches!(&records[0], Record::Function(f) if f.name == "first"));
    assert!(matches!(&records[1], Record::Struct(s) if s.name == "Second"));
}

#[test]
fn receiver_argument_is_unsupported() {
    let src = String::new();
    let items = vec![Item::Fn(ItemFn {
        name: "m".to_string(),
        args: vec![FnArg::Receiver],
        output: ReturnType::Default,
        body: vec![],
    })];
    assert_eq!(parse_file(&items, &src), Err(WalkError::UnsupportedArgument));
}

#[test]
fn unsupported_local_pattern_aborts() {
    let src = String::new();
    let items = vec![Item::Fn(ItemFn {
        name: "m2".to_string(),
        args: vec![],
        output: ReturnType::Default,
        body: vec![Stmt::Local(Local { pat: Pat::Other })],
    })];
    assert_eq!(parse_file(&items, &src), Err(WalkError::UnsupportedPattern));
}

#[test]
fn argument_error_reported_before_variable_error() {
    let src = String::new();
    let items = vec![Item::Fn(ItemFn {
        name: "m3".to_string(),
        args: vec![FnArg::Receiver],
        output: ReturnType::Default,
        body: vec![Stmt::Local(Local { pat: Pat::Other })],
    })];
    assert_eq!(parse_file(&items, &src), Err(WalkError::UnsupportedArgument));
}

#[test]
fn unnamed_field_is_unsupported() {
    let src = String::from("u8");
    let items = vec![Item::Struct(ItemStruct {
        name: "Tuple".to_string(),
        fields: vec![Field { name: None, ty: ann(1, 0, 1, 2) }],
    })];
    assert_eq!(parse_file(&items, &src), Err(WalkError::UnsupportedField));
}

#[test]
fn other_item_alone_is_unsupported_by_assembly() {
    let src = String::new();
    let table = lines_offsets(&src);
    assert_eq!(parse_item(&Item::Other, src.as_str(), &table), Err(WalkError::UnsupportedItem));
}

#[test]
fn untyped_local_classifies_inferred() {
    let src = String::new();
    let items = vec![Item::Fn(ItemFn {
        name: "plain".to_string(),
        args: vec![],
        output: ReturnType::Default,
        body: vec![untyped_local("x")],
    })];
    let records = parse_file(&items, &src).unwrap();
    match &records[0] {
        Record::Function(f) => assert_eq!(f.variables, vec![named("x", PointerKind::Inferred)]),
        _ => panic!("expected a function record"),
    }
}

#[test]
fn pattern_name_reaches_through_type_annotation() {
    let pat = Pat::Typed { inner: Box::new(ident("y")), ty: ann(1, 0, 1, 1) };
    assert_eq!(pattern_to_name(&pat), Ok("y".to_string()));
    assert_eq!(pattern_to_name(&Pat::Other), Err(WalkError::UnsupportedPattern));
}

#[test]
fn pattern_type_of_each_shape() {
    let ty = ann(1, 0, 1, 1);
    let pat = Pat::Typed { inner: Box::new(ident("z")), ty };
    assert_eq!(pattern_to_type(&pat), Ok(Some(&ty)));
    assert_eq!(pattern_to_type(&ident("z")), Ok(None));
    assert_eq!(pattern_to_type(&Pat::Other), Err(WalkError::UnsupportedPattern));
}

#[test]
fn error_messages_describe_construct() {
    assert_eq!(WalkError::UnsupportedPattern.message(), "Unsupported pattern");
    assert_eq!(WalkError::UnsupportedArgument.message(), "Unsupported argument kind");
    assert_eq!(WalkError::UnsupportedItem.message(), "Unsupported item kind");
    assert_eq!(WalkError::UnsupportedField.message(), "Unsupported field");
}

#[test]
fn check_file_rejects_span_outside_source() {
    let src = String::from("u8");
    let good = vec![Item::Struct(ItemStruct {
        name: "Ok1".to_string(),
        fields: vec![Field { name: Some("a".to_string()), ty: ann(1, 0, 1, 2) }],
    })];
    assert!(check_file(&good, &src));
    let bad = vec![Item::Struct(ItemStruct {
        name: "Bad1".to_string(),
        fields: vec![Field { name: Some("a".to_string()), ty: ann(5, 0, 5, 1) }],
    })];
    assert!(!check_file(&bad, &src));
}

use kybra_generate::ast::{Arg, Expr, IntLiteral, Keyword, Location, Stmt, StmtKind};
use kybra_generate::candid::{CandidType, Primitive};
use kybra_generate::errors::{collect_results, Error, ErrorKind};
use kybra_generate::program::{PyAst, ToKybraAst};
use kybra_generate::resolver::{lookup_primitive, to_candid_type};
use kybra_generate::source_map::SourceMapped;
use kybra_generate::stable_storage::{big_int_to_max_size, big_int_to_memory_id, get_keyword_by_name};

fn at(line: u32) -> Location {
    Location { line, column: 0 }
}

fn name(n: &str) -> Expr {
    Expr::Name(n.to_string())
}

fn lit(v: u32) -> Expr {
    Expr::Int(IntLiteral { negative: false, digits: vec![v] })
}

fn neg(v: u32) -> Expr {
    Expr::Int(IntLiteral { negative: true, digits: vec![v] })
}

fn sub(g: &str, slice: Expr) -> Expr {
    Expr::Subscript { value: Box::new(name(g)), slice: Box::new(slice) }
}

fn tup(elts: Vec<Expr>) -> Expr {
    Expr::Tuple(elts)
}

fn kw(n: &str, value: Expr) -> Keyword {
    Keyword { arg: Some(n.to_string()), value }
}

fn assign(target: &str, value: Expr, line: u32) -> Stmt {
    Stmt { kind: StmtKind::Assign { targets: vec![name(target)], value }, location: at(line) }
}

fn member(n: &str, annotation: Expr, line: u32) -> Stmt {
    Stmt {
        kind: StmtKind::AnnAssign { target: name(n), annotation, value: None },
        location: at(line),
    }
}

fn class(n: &str, bases: Vec<Expr>, body: Vec<Stmt>, line: u32) -> Stmt {
    Stmt { kind: StmtKind::ClassDef { name: n.to_string(), bases, body }, location: at(line) }
}

fn stable_map(args: Vec<Expr>, keywords: Vec<Keyword>, line: u32) -> Stmt {
    let func = sub("StableBTreeMap", tup(vec![name("int"), name("str")]));
    assign("m", Expr::Call { func: Box::new(func), args, keywords }, line)
}

fn kinds(es: &[Error]) -> Vec<ErrorKind> {
    es.iter().map(|e| e.kind).collect()
}

fn storage_errors(s: Stmt) -> Vec<ErrorKind> {
    match (PyAst { stmts: vec![s] }).build_stable_b_tree_map_nodes() {
        Err(es) => kinds(&es),
        Ok(_) => vec![],
    }
}

#[test]
fn every_independent_failure_is_reported_in_source_order() {
    let bad_record = class(
        "R",
        vec![name("Record")],
        vec![member("a", sub("Foo", name("int")), 2)],
        1,
    );
    let good_alias = assign("y", sub("Alias", name("int")), 3);
    let bad_map = stable_map(vec![lit(300), lit(10), lit(20)], vec![], 4);
    let model = PyAst { stmts: vec![bad_record, good_alias, bad_map] }.analyze();
    assert_eq!(
        model.diagnostics,
        vec![
            Error { kind: ErrorKind::InvalidTypeExpression, location: at(2) },
            Error { kind: ErrorKind::MemoryIdTooBig, location: at(4) },
        ]
    );
    assert_eq!(model.type_aliases.len(), 1);
    assert!(model.records.is_empty());
    assert!(!model.succeeded());
}

#[test]
fn two_element_tuple_resolves_in_order_without_name() {
    let e = sub("Tuple", tup(vec![name("int"), name("str")]));
    match to_candid_type(&e, at(1)) {
        Ok(CandidType::Tuple(t)) => {
            assert!(t.name.is_none());
            assert_eq!(t.elems.len(), 2);
            assert!(matches!(t.elems[0], CandidType::Primitive(Primitive::Int)));
            assert!(matches!(t.elems[1], CandidType::Primitive(Primitive::Text)));
        }
        _ => panic!("expected a tuple"),
    }
}

#[test]
fn single_argument_tuple_is_bound_to_its_name() {
    let ast = PyAst { stmts: vec![assign("t", sub("Tuple", name("nat8")), 1)] };
    let tuples = ast.build_tuples().unwrap();
    assert_eq!(tuples.len(), 1);
    assert_eq!(tuples[0].name.as_deref(), Some("t"));
    assert_eq!(tuples[0].elems.len(), 1);
    assert!(matches!(tuples[0].elems[0], CandidType::Primitive(Primitive::Nat8)));
}

#[test]
fn as_tuple_on_a_non_tuple_expression_is_none() {
    let e = sub("Opt", name("int"));
    let r = SourceMapped::new(&e, at(1)).as_tuple(Some("x".to_string()));
    assert!(matches!(r, Ok(None)));
}

#[test]
fn as_tuple_reports_each_invalid_member() {
    let e = sub("Tuple", tup(vec![sub("Foo", name("int")), name("int"), Expr::Other]));
    let r = SourceMapped::new(&e, at(7)).as_tuple(None);
    assert_eq!(
        r.unwrap_err(),
        vec![
            Error { kind: ErrorKind::InvalidTypeExpression, location: at(7) },
            Error { kind: ErrorKind::InvalidTypeExpression, location: at(7) },
        ]
    );
}

#[test]
fn positional_and_keyword_bounded_maps_agree() {
    let positional = stable_map(vec![lit(3), lit(100), lit(1000)], vec![], 1);
    let keyword = stable_map(
        vec![],
        vec![kw("max_value_size", lit(1000)), kw("memory_id", lit(3)), kw("max_key_size", lit(100))],
        2,
    );
    let a = PyAst { stmts: vec![positional] }.build_stable_b_tree_map_nodes().unwrap();
    let b = PyAst { stmts: vec![keyword] }.build_stable_b_tree_map_nodes().unwrap();
    assert_eq!(a.len(), 1);
    assert_eq!(b.len(), 1);
    for n in [&a[0], &b[0]] {
        assert_eq!(n.memory_id, 3);
        assert_eq!(n.max_key_size, 100);
        assert_eq!(n.max_value_size, 1000);
        assert!(matches!(n.key_type, CandidType::Primitive(Primitive::Int)));
        assert!(matches!(n.value_type, CandidType::Primitive(Primitive::Text)));
    }
}

#[test]
fn memory_id_300_is_too_big() {
    let s = stable_map(vec![lit(300), lit(10), lit(10)], vec![], 1);
    assert_eq!(storage_errors(s), vec![ErrorKind::MemoryIdTooBig]);
}

#[test]
fn negative_memory_id_is_rejected() {
    let s = stable_map(vec![neg(1), lit(10), lit(10)], vec![], 1);
    assert_eq!(storage_errors(s), vec![ErrorKind::MemoryIdMustBeNonNegative]);
}

#[test]
fn memory_id_255_is_accepted() {
    let s = stable_map(vec![lit(255), lit(0), lit(4294967295)], vec![], 1);
    let nodes = PyAst { stmts: vec![s] }.build_stable_b_tree_map_nodes().unwrap();
    assert_eq!(nodes[0].memory_id, 255);
    assert_eq!(nodes[0].max_key_size, 0);
    assert_eq!(nodes[0].max_value_size, 4294967295);
}

#[test]
fn missing_value_size_names_only_that_field() {
    let s = stable_map(vec![lit(0), lit(10)], vec![], 1);
    assert_eq!(storage_errors(s), vec![ErrorKind::MaxValueSizeMissing]);
}

#[test]
fn missing_memory_id_and_key_size() {
    let s = stable_map(vec![], vec![kw("max_value_size", lit(5))], 1);
    assert_eq!(
        storage_errors(s),
        vec![ErrorKind::MissingMemoryId, ErrorKind::MaxKeySizeMissing]
    );
}

#[test]
fn non_integer_fields_are_rejected() {
    let s = stable_map(vec![name("x"), Expr::Other], vec![kw("max_value_size", name("y"))], 1);
    assert_eq!(
        storage_errors(s),
        vec![
            ErrorKind::MemoryIdMustBeInteger,
            ErrorKind::MaxSizeMustBeInteger,
            ErrorKind::MaxSizeMustBeInteger
        ]
    );
}

#[test]
fn max_sizes_out_of_range() {
    let big = Expr::Int(IntLiteral { negative: false, digits: vec![0, 1] });
    let s = stable_map(vec![lit(1), neg(5), big], vec![], 1);
    assert_eq!(
        storage_errors(s),
        vec![ErrorKind::MaxSizeMustBeNonNegative, ErrorKind::MaxSizeTooBig]
    );
}

#[test]
fn bounded_map_needs_a_key_and_value_type() {
    let func = sub("StableBTreeMap", name("int"));
    let call = Expr::Call { func: Box::new(func), args: vec![lit(0), lit(1), lit(2)], keywords: vec![] };
    let s = assign("m", call, 1);
    assert_eq!(storage_errors(s), vec![ErrorKind::StableBTreeMapNodeFormat]);
}

#[test]
fn bounded_map_with_invalid_value_type() {
    let func = sub("StableBTreeMap", tup(vec![name("int"), Expr::Other]));
    let call = Expr::Call { func: Box::new(func), args: vec![lit(0), lit(1), lit(2)], keywords: vec![] };
    let s = assign("m", call, 1);
    assert_eq!(storage_errors(s), vec![ErrorKind::InvalidTypeExpression]);
}

#[test]
fn record_members_keep_declaration_order() {
    let ab = class(
        "P",
        vec![name("Record")],
        vec![member("a", name("int"), 2), member("b", name("str"), 3)],
        1,
    );
    let ba = class(
        "P",
        vec![name("Record")],
        vec![member("b", name("str"), 2), member("a", name("int"), 3)],
        1,
    );
    let r1 = PyAst { stmts: vec![ab] }.build_records().unwrap();
    let r2 = PyAst { stmts: vec![ba] }.build_records().unwrap();
    let names1: Vec<&str> = r1[0].members.iter().map(|m| m.name.as_str()).collect();
    let names2: Vec<&str> = r2[0].members.iter().map(|m| m.name.as_str()).collect();
    assert_eq!(names1, vec!["a", "b"]);
    assert_eq!(names2, vec!["b", "a"]);
    assert_eq!(r1[0].name.as_deref(), Some("P"));
    assert!(matches!(r1[0].members[0].candid_type, CandidType::Primitive(Primitive::Int)));
    assert!(matches!(r2[0].members[0].candid_type, CandidType::Primitive(Primitive::Text)));
}

#[test]
fn class_without_record_base_is_ignored() {
    let c = class("C", vec![name("object")], vec![member("a", Expr::Other, 2)], 1);
    let model = PyAst { stmts: vec![c] }.analyze();
    assert!(model.records.is_empty());
    assert!(model.succeeded());
}

#[test]
fn duplicate_record_member_is_rejected() {
    let c = class(
        "D",
        vec![name("Record")],
        vec![member("a", name("int"), 2), member("a", name("str"), 3)],
        1,
    );
    let r = PyAst { stmts: vec![c] }.build_records();
    assert_eq!(r.unwrap_err(), vec![Error { kind: ErrorKind::DuplicateMemberName, location: at(1) }]);
}

#[test]
fn alias_of_int_is_a_type_alias() {
    let ast = PyAst { stmts: vec![assign("y", sub("Alias", name("int")), 1)] };
    let aliases = ast.build_type_aliases().unwrap();
    assert_eq!(aliases.len(), 1);
    assert_eq!(aliases[0].name, "y");
    assert!(matches!(*aliases[0].aliased_type, CandidType::Primitive(Primitive::Int)));
}

#[test]
fn other_subscript_is_not_an_alias() {
    let ast = PyAst { stmts: vec![assign("y", sub("Other", name("int")), 1)] };
    assert!(ast.build_type_aliases().unwrap().is_empty());
    let model = ast.analyze();
    assert!(model.type_aliases.is_empty());
    assert!(model.diagnostics.is_empty());
}

#[test]
fn bare_tuple_expression_has_invalid_name() {
    let s = Stmt {
        kind: StmtKind::Expr(sub("Tuple", tup(vec![name("int"), name("str")]))),
        location: at(5),
    };
    let model = PyAst { stmts: vec![s] }.analyze();
    assert_eq!(model.diagnostics, vec![Error { kind: ErrorKind::InvalidName, location: at(5) }]);
    assert!(model.tuples.is_empty());
}

#[test]
fn alias_without_name_has_invalid_name() {
    let s = Stmt { kind: StmtKind::Expr(Expr::Other), location: at(1) };
    let unnamed = Stmt {
        kind: StmtKind::Assign { targets: vec![], value: sub("Alias", name("int")) },
        location: at(2),
    };
    let r = PyAst { stmts: vec![s, unnamed] }.build_type_aliases();
    assert_eq!(r.unwrap_err(), vec![Error { kind: ErrorKind::InvalidName, location: at(2) }]);
}

#[test]
fn nested_generics_resolve() {
    let e = sub("Opt", sub("Vec", name("MyRecord")));
    match to_candid_type(&e, at(1)).unwrap() {
        CandidType::Opt(inner) => match *inner {
            CandidType::Array(elem) => match *elem {
                CandidType::TypeRef(n) => assert_eq!(n, "MyRecord"),
                _ => panic!("expected a type reference"),
            },
            _ => panic!("expected an array"),
        },
        _ => panic!("expected an option"),
    }
}

#[test]
fn unsupported_shapes_are_invalid_type_expressions() {
    let r = to_candid_type(&lit(3), at(9));
    assert_eq!(r.unwrap_err(), Error { kind: ErrorKind::InvalidTypeExpression, location: at(9) });
    let r = to_candid_type(&sub("Alias", name("int")), at(9));
    assert!(r.is_err());
}

#[test]
fn primitive_keywords() {
    assert_eq!(lookup_primitive(&"float64".to_string()), Some(Primitive::Float64));
    assert_eq!(lookup_primitive(&"text".to_string()), Some(Primitive::Text));
    assert_eq!(lookup_primitive(&"blob".to_string()), Some(Primitive::Blob));
    assert_eq!(lookup_primitive(&"reserved".to_string()), Some(Primitive::Reserved));
    assert_eq!(lookup_primitive(&"Person".to_string()), None);
}

#[test]
fn collect_results_keeps_all_successes_or_all_failures() {
    let ok: Vec<Result<u8, Vec<u8>>> = vec![Ok(1), Ok(2), Ok(3)];
    assert_eq!(collect_results(ok), Ok(vec![1, 2, 3]));
    let mixed: Vec<Result<u8, Vec<u8>>> = vec![Err(vec![1]), Ok(2), Err(vec![3, 4])];
    assert_eq!(collect_results(mixed), Err(vec![1, 3, 4]));
    let none: Vec<Result<u8, Vec<u8>>> = vec![];
    assert_eq!(collect_results(none), Ok(vec![]));
}

#[test]
fn literal_conversions() {
    let zero = IntLiteral { negative: true, digits: vec![] };
    assert_eq!(big_int_to_memory_id(&zero), Ok(0));
    let padded = IntLiteral { negative: false, digits: vec![7, 0, 0] };
    assert_eq!(big_int_to_memory_id(&padded), Ok(7));
    assert_eq!(big_int_to_max_size(&padded), Ok(7));
    let huge = IntLiteral { negative: false, digits: vec![5, 0, 1] };
    assert_eq!(big_int_to_memory_id(&huge), Err(ErrorKind::MemoryIdTooBig));
    assert_eq!(big_int_to_max_size(&huge), Err(ErrorKind::MaxSizeTooBig));
}

#[test]
fn first_matching_keyword_wins() {
    let kws = vec![kw("memory_id", lit(1)), kw("memory_id", lit(2))];
    assert!(matches!(get_keyword_by_name("memory_id", &kws), Some(Expr::Int(l)) if l.digits == vec![1]));
    assert!(get_keyword_by_name("max_key_size", &kws).is_none());
}

#[test]
fn data_types_in_source_order() {
    let ast = PyAst {
        stmts: vec![
            assign("a", sub("Alias", name("int")), 1),
            class("R", vec![name("Record")], vec![member("x", name("bool"), 3)], 2),
            assign("t", sub("Tuple", tup(vec![name("int"), name("int")])), 4),
        ],
    };
    let types = ast.get_act_data_type_nodes();
    assert_eq!(types.len(), 3);
    assert!(matches!(types[0], CandidType::TypeAlias(_)));
    assert!(matches!(types[1], CandidType::Record(_)));
    assert!(matches!(types[2], CandidType::Tuple(_)));
}

#[test]
fn messages_are_distinct() {
    assert_eq!(ErrorKind::MemoryIdTooBig.message(), "memory_id is too big: it must be at most 255");
    assert_ne!(ErrorKind::MaxKeySizeMissing.message(), ErrorKind::MaxValueSizeMissing.message());
}

fn function_def(args: Vec<(&str, Option<Expr>)>, line: u32) -> Stmt {
    Stmt {
        kind: StmtKind::FunctionDef {
            name: "get_user".to_string(),
            args: args
                .into_iter()
                .map(|(n, a)| Arg { arg: n.to_string(), annotation: a })
                .collect(),
        },
        location: at(line),
    }
}

#[test]
fn function_params_are_resolved_in_order() {
    let f = function_def(vec![("id", Some(name("nat64"))), ("tag", Some(sub("Opt", name("str"))))], 1);
    assert_eq!(f.get_function_name(), "get_user");
    let params = f.build_params().unwrap();
    assert_eq!(params.len(), 2);
    assert_eq!(params[0].name, "id");
    assert!(matches!(params[0].candid_type, CandidType::Primitive(Primitive::Nat64)));
    assert_eq!(params[1].name, "tag");
    assert!(matches!(params[1].candid_type, CandidType::Opt(_)));
}

#[test]
fn function_params_need_type_annotations() {
    let f = function_def(vec![("a", None), ("b", Some(name("int"))), ("c", Some(Expr::Other))], 4);
    assert_eq!(
        f.build_params().unwrap_err(),
        vec![
            Error { kind: ErrorKind::MissingTypeAnnotation, location: at(4) },
            Error { kind: ErrorKind::InvalidTypeExpression, location: at(4) },
        ]
    );
}

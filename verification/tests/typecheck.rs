use x07c::ast::{
    ContractClauseAst, Expr, FnParam, FunctionDecl, TypeRef, X07AstFile, X07AstKind,
};
use x07c::diagnostics::{DiagValue, Diagnostic};
use x07c::infer::PendingImplicitTapp;
use x07c::tapp::drain_pending_tapp;
use x07c::typecheck::{typecheck_file_local, typecheck_file_with_sigs, TappRewrite, TypecheckOptions, TypecheckSigs};
use x07c::unify::{Subst, TyTerm};

fn ident(name: &str, ptr: &str) -> Expr {
    Expr::Ident { name: name.to_string(), ptr: ptr.to_string() }
}

fn int_lit(value: i32, ptr: &str) -> Expr {
    Expr::Int { value, ptr: ptr.to_string() }
}

fn list(items: Vec<Expr>, ptr: &str) -> Expr {
    Expr::List { items, ptr: ptr.to_string() }
}

fn named(s: &str) -> TypeRef {
    TypeRef::Named(s.to_string())
}

fn data<'a>(d: &'a Diagnostic, key: &str) -> Option<&'a DiagValue> {
    d.data.iter().find(|(k, _)| k == key).map(|(_, v)| v)
}

fn entry_file(functions: Vec<FunctionDecl>, solve: Option<Expr>) -> X07AstFile {
    X07AstFile {
        kind: X07AstKind::Entry,
        module_id: "main".to_string(),
        exports: Vec::new(),
        extern_functions: Vec::new(),
        functions,
        async_functions: Vec::new(),
        solve,
    }
}

fn defn(name: &str, params: Vec<(&str, &str)>, result: &str, body: Expr) -> FunctionDecl {
    FunctionDecl {
        name: name.to_string(),
        type_params: Vec::new(),
        params: params
            .into_iter()
            .map(|(n, t)| FnParam { name: n.to_string(), ty: named(t), brand: None })
            .collect(),
        result: named(result),
        result_brand: None,
        requires: Vec::new(),
        ensures: Vec::new(),
        invariant: Vec::new(),
        body,
    }
}

#[test]
fn pending_tapp_unresolved_emits_explicit_tapp_required_diag() {
    let pending = PendingImplicitTapp {
        call_ptr: "/solve/0".to_string(),
        callee: "main.id".to_string(),
        type_params: vec!["A".to_string()],
        meta_ids: vec![0],
    };
    let subst = Subst::default();
    let mut diagnostics = Vec::new();
    let mut tapp_rewrites: Vec<TappRewrite> = Vec::new();

    drain_pending_tapp(vec![pending], &subst, &mut diagnostics, &mut tapp_rewrites);

    assert!(tapp_rewrites.is_empty(), "unexpected rewrites: {tapp_rewrites:?}");
    assert_eq!(diagnostics.len(), 1, "unexpected diags: {diagnostics:?}");
    let diag = diagnostics.first().expect("len == 1");
    assert_eq!(diag.code, "X07-TAPP-INFER-0001");
    let unresolved = match data(diag, "unresolved_type_params") {
        Some(DiagValue::Arr(items)) => items.clone(),
        other => panic!("unresolved_type_params must be an array: {other:?}"),
    };
    assert_eq!(unresolved, vec![DiagValue::Str("A".to_string())]);
}

#[test]
fn pending_tapp_resolved_records_rewrite() {
    let pending = PendingImplicitTapp {
        call_ptr: "/solve/0".to_string(),
        callee: "main.id".to_string(),
        type_params: vec!["A".to_string()],
        meta_ids: vec![0],
    };
    let mut subst = Subst::default();
    subst.bind(0, TyTerm::Named("i32".to_string()));
    let mut diagnostics = Vec::new();
    let mut tapp_rewrites: Vec<TappRewrite> = Vec::new();

    drain_pending_tapp(vec![pending], &subst, &mut diagnostics, &mut tapp_rewrites);

    assert!(diagnostics.is_empty(), "unexpected diags: {diagnostics:?}");
    assert_eq!(tapp_rewrites.len(), 1, "unexpected rewrites: {tapp_rewrites:?}");
    let r = tapp_rewrites
        .iter()
        .find(|r| r.call_ptr == "/solve/0")
        .expect("rewrite present");
    assert_eq!(r.inferred_type_args, vec![TypeRef::Named("i32".to_string())]);
}

#[test]
fn typecheck_contract_clause_must_be_i32() {
    let mut f = defn(
        "main.f",
        vec![("x", "bytes")],
        "bytes",
        list(vec![ident("bytes.alloc", "/decls/0/body/0"), int_lit(0, "/decls/0/body/1")], "/decls/0/body"),
    );
    f.requires = vec![ContractClauseAst {
        expr: list(
            vec![
                ident("bytes.view", "/decls/0/requires/0/expr/0"),
                ident("x", "/decls/0/requires/0/expr/1"),
            ],
            "/decls/0/requires/0/expr",
        ),
        witness: Vec::new(),
    }];
    let file = entry_file(vec![f], None);

    let report = typecheck_file_local(&file, &TypecheckOptions::default());
    let diag = report
        .diagnostics
        .iter()
        .find(|d| d.code == "X07-CONTRACT-0001")
        .expect("expected X07-CONTRACT-0001");
    assert_eq!(data(diag, "expected"), Some(&DiagValue::Str("i32".to_string())));
    assert_eq!(data(diag, "got"), Some(&DiagValue::Str("bytes_view".to_string())));
}

#[test]
fn typecheck_call_arg_mismatch_includes_callee_and_arg_index() {
    let id = defn("main.id", vec![("x", "i32")], "i32", ident("x", "/decls/0/body"));
    let solve = list(
        vec![
            ident("begin", "/solve/0"),
            list(
                vec![
                    ident("let", "/solve/1/0"),
                    ident("b", "/solve/1/1"),
                    list(vec![ident("bytes.alloc", "/solve/1/2/0"), int_lit(0, "/solve/1/2/1")], "/solve/1/2"),
                ],
                "/solve/1",
            ),
            list(vec![ident("main.id", "/solve/2/0"), ident("b", "/solve/2/1")], "/solve/2"),
            list(vec![ident("bytes.alloc", "/solve/3/0"), int_lit(0, "/solve/3/1")], "/solve/3"),
        ],
        "/solve",
    );
    let file = entry_file(vec![id], Some(solve));

    let report = typecheck_file_local(&file, &TypecheckOptions::default());
    let diag = report
        .diagnostics
        .iter()
        .find(|d| d.code == "X07-TYPE-CALL-0002")
        .expect("expected X07-TYPE-CALL-0002");
    assert_eq!(data(diag, "callee"), Some(&DiagValue::Str("main.id".to_string())));
    assert_eq!(data(diag, "arg_index"), Some(&DiagValue::UInt(0)));
    assert_eq!(data(diag, "expected"), Some(&DiagValue::Str("i32".to_string())));
    assert_eq!(data(diag, "got"), Some(&DiagValue::Str("bytes".to_string())));
}

#[test]
fn typecheck_set0_unifies_if_branches_as_i32() {
    let solve = list(
        vec![
            ident("begin", "/solve/0"),
            list(
                vec![
                    ident("let", "/solve/1/0"),
                    ident("b", "/solve/1/1"),
                    list(vec![ident("bytes.alloc", "/solve/1/2/0"), int_lit(0, "/solve/1/2/1")], "/solve/1/2"),
                ],
                "/solve/1",
            ),
            list(
                vec![
                    ident("if", "/solve/2/0"),
                    int_lit(1, "/solve/2/1"),
                    list(
                        vec![
                            ident("set0", "/solve/2/2/0"),
                            ident("b", "/solve/2/2/1"),
                            list(
                                vec![ident("bytes.alloc", "/solve/2/2/2/0"), int_lit(1, "/solve/2/2/2/1")],
                                "/solve/2/2/2",
                            ),
                        ],
                        "/solve/2/2",
                    ),
                    int_lit(0, "/solve/2/3"),
                ],
                "/solve/2",
            ),
            ident("b", "/solve/3"),
        ],
        "/solve",
    );
    let file = entry_file(Vec::new(), Some(solve));

    let report = typecheck_file_local(&file, &TypecheckOptions::default());
    assert!(report.diagnostics.is_empty(), "unexpected diags: {:?}", report.diagnostics);
}

#[test]
fn typecheck_with_explicit_sigs_matches_local() {
    let body = list(vec![ident("bytes.alloc", "/b/0"), int_lit(0, "/b/1")], "/b");
    let file = entry_file(vec![defn("main.f", vec![("x", "i32")], "i32", body)], None);
    let sigs = TypecheckSigs::for_file_with_builtins(&file);
    let with_sigs = typecheck_file_with_sigs(&file, &sigs, &TypecheckOptions::default());
    let local = typecheck_file_local(&file, &TypecheckOptions::default());
    assert_eq!(with_sigs.diagnostics.len(), local.diagnostics.len());
    assert!(!with_sigs.diagnostics.is_empty());
    let d = &with_sigs.diagnostics[0];
    assert_eq!(d.code, local.diagnostics[0].code);
    for (k, v) in &d.data {
        assert_eq!(d.get_data(k), Some(v));
    }
    assert_eq!(d.get_data("no_such_key"), None);
}

#[test]
fn bytes_literal_solve_gives_an_empty_report() {
    let solve = list(vec![ident("bytes.lit", "/solve/0"), ident("hello", "/solve/1")], "/solve");
    let file = entry_file(Vec::new(), Some(solve));
    let report = typecheck_file_local(&file, &TypecheckOptions::default());
    assert!(report.diagnostics.is_empty());
    assert!(report.tapp_rewrites.is_empty());
}

#[test]
fn unknown_callee_of_this_module_is_reported_at_the_call() {
    let solve = list(vec![ident("main.nope", "/solve/0"), int_lit(1, "/solve/1")], "/solve");
    let file = entry_file(Vec::new(), Some(solve));
    let report = typecheck_file_local(&file, &TypecheckOptions::default());
    assert!(report.diagnostics.iter().any(|d| d.code == "X07-TYPE-CALL-0001"));
    let other = list(vec![ident("other.nope", "/solve/0"), int_lit(1, "/solve/1")], "/solve");
    let report2 = typecheck_file_local(&entry_file(Vec::new(), Some(other)), &TypecheckOptions::default());
    assert!(!report2.diagnostics.iter().any(|d| d.code == "X07-TYPE-CALL-0001"));
}

#[test]
fn unknown_callee_in_a_definition_body_is_reported() {
    let body = list(vec![ident("main.missing", "/decls/0/body/0"), int_lit(1, "/decls/0/body/1")], "/decls/0/body");
    let f = defn("main.f", vec![("x", "i32")], "i32", body);
    let file = entry_file(vec![f], None);
    let report = typecheck_file_local(&file, &TypecheckOptions::default());
    let hit = report
        .diagnostics
        .iter()
        .find(|d| d.code == "X07-TYPE-CALL-0001")
        .expect("unknown callee diagnostic");
    assert_eq!(data(hit, "callee"), Some(&DiagValue::Str("main.missing".to_string())));
    let known = list(vec![ident("main.f", "/decls/1/body/0"), int_lit(2, "/decls/1/body/1")], "/decls/1/body");
    let g = defn("main.g", Vec::new(), "i32", known);
    let f2 = defn("main.f", vec![("x", "i32")], "i32", ident("x", "/decls/0/body"));
    let report2 = typecheck_file_local(&entry_file(vec![f2, g], None), &TypecheckOptions::default());
    assert!(!report2.diagnostics.iter().any(|d| d.code == "X07-TYPE-CALL-0001"));
}

#[test]
fn builtin_plus_takes_two_i32_operands() {
    let mut sigs = TypecheckSigs::new();
    sigs.add_builtins();
    sigs.add_builtins();
    let plus = sigs.get("+").expect("builtin +");
    assert!(plus.type_params.is_empty());
    let params: Vec<(&str, &TypeRef)> = plus.params.iter().map(|(n, t, _)| (n.as_str(), t)).collect();
    assert_eq!(params.len(), 2);
    assert_eq!(params[0].0, "a");
    assert_eq!(params[1].0, "b");
    assert!(matches!(params[0].1, TypeRef::Named(n) if n == "i32"));
    assert!(matches!(params[1].1, TypeRef::Named(n) if n == "i32"));
    assert!(matches!(&plus.result, TypeRef::Named(n) if n == "i32"));
    assert!(plus.decl_ptr.is_empty());
    assert!(!plus.is_async);
}

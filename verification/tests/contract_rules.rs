use x07c::ast::Expr;
use x07c::contract_rules::{
    contract_collect_impurity, contract_pure_call_head, contract_ty_brief,
    contract_witness_ty_allowed, diag_contract_err,
};
use x07c::unify::TyTerm;

fn ident(name: &str, ptr: &str) -> Expr {
    Expr::Ident { name: name.to_string(), ptr: ptr.to_string() }
}

fn list(items: Vec<Expr>, ptr: &str) -> Expr {
    Expr::List { items, ptr: ptr.to_string() }
}

#[test]
fn pure_heads_allow_operators_builtins_and_option_result_helpers() {
    assert!(contract_pure_call_head("+"));
    assert!(contract_pure_call_head(">>u"));
    assert!(contract_pure_call_head("bytes.cmp_range"));
    assert!(contract_pure_call_head("view.to_bytes"));
    assert!(contract_pure_call_head("option_i32.is_some"));
    assert!(contract_pure_call_head("result_bytes.unwrap_or"));
    assert!(!contract_pure_call_head("main.helper"));
    assert!(!contract_pure_call_head("bytes.alloc"));
    assert!(!contract_pure_call_head(""));
    assert!(!contract_pure_call_head("option"));
}

#[test]
fn impurity_reports_disallowed_forms_calls_and_heads() {
    // (begin (set x 1) (main.f x) (1 2))
    let e = list(
        vec![
            ident("begin", "/e/0"),
            list(vec![ident("set", "/e/1/0"), ident("x", "/e/1/1")], "/e/1"),
            list(vec![ident("main.f", "/e/2/0"), ident("x", "/e/2/1")], "/e/2"),
            list(vec![list(vec![], "/e/3/0")], "/e/3"),
        ],
        "/e",
    );
    let mut out = Vec::new();
    contract_collect_impurity(&e, &mut out);
    assert_eq!(
        out,
        vec![
            ("/e/1".to_string(), "contract expression is not pure: disallowed form \"set\"".to_string()),
            ("/e/2".to_string(), "contract expression is not pure: disallowed call \"main.f\"".to_string()),
            ("/e/3".to_string(), "contract expression is not pure: list head must be an identifier".to_string()),
            ("/e/3/0".to_string(), "contract expression is not pure: list head must be an identifier".to_string()),
        ]
    );
}

#[test]
fn impurity_checks_tapp_callee_and_skips_type_args() {
    let e = list(
        vec![
            ident("tapp", "/e/0"),
            ident("main.id", "/e/1"),
            list(vec![ident("set", "/e/2/0")], "/e/2"),
            list(vec![ident("try", "/e/3/0")], "/e/3"),
        ],
        "/e",
    );
    let mut out = Vec::new();
    contract_collect_impurity(&e, &mut out);
    assert_eq!(
        out,
        vec![
            ("/e".to_string(), "contract expression is not pure: disallowed callee \"main.id\"".to_string()),
            ("/e/3".to_string(), "contract expression is not pure: disallowed form \"try\"".to_string()),
        ]
    );
}

#[test]
fn pure_expression_has_no_impurity() {
    let e = list(vec![ident("=", "/e/0"), ident("x", "/e/1"), ident("y", "/e/2")], "/e");
    let mut out = Vec::new();
    contract_collect_impurity(&e, &mut out);
    assert!(out.is_empty());
}

#[test]
fn witness_types_allowed() {
    assert!(contract_witness_ty_allowed(&TyTerm::Named("i32".to_string())));
    assert!(contract_witness_ty_allowed(&TyTerm::Named("bytes_view".to_string())));
    assert!(contract_witness_ty_allowed(&TyTerm::Named("result_i32".to_string())));
    assert!(!contract_witness_ty_allowed(&TyTerm::Named("vec_u8".to_string())));
    assert!(!contract_witness_ty_allowed(&TyTerm::Meta(3)));
    assert!(!contract_witness_ty_allowed(&TyTerm::Never));
}

#[test]
fn ty_brief_renders_each_kind() {
    assert_eq!(contract_ty_brief(&TyTerm::Named("bytes".to_string())), "bytes");
    assert_eq!(contract_ty_brief(&TyTerm::Never), "never");
    assert_eq!(contract_ty_brief(&TyTerm::TParam("A".to_string())), "A");
    assert_eq!(contract_ty_brief(&TyTerm::Meta(42)), "?42");
    assert_eq!(
        contract_ty_brief(&TyTerm::App { head: "vec".to_string(), args: vec![TyTerm::Meta(0)] }),
        "vec"
    );
}

#[test]
fn impurity_diag_carries_allowlist_note_and_others_do_not() {
    let d = diag_contract_err("X07-CONTRACT-0002", "/p".to_string(), "m".to_string());
    assert_eq!(d.notes.len(), 1);
    assert!(d.notes[0].starts_with("Allowed contract-pure heads/operators: +, -, *"));
    assert!(d.notes[0].ends_with("Module calls are disallowed (only builtins/operators)."));
    let d = diag_contract_err("X07-CONTRACT-0003", "/p".to_string(), "m".to_string());
    assert!(d.notes.is_empty());
    assert_eq!(d.code, "X07-CONTRACT-0003");
    assert_eq!(d.message, "m");
}

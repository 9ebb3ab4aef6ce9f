use x07c::ast::{Expr, TypeRef};
use x07c::diagnostics::{DiagValue, Diagnostic, Location, Severity, Stage};
use x07c::infer::{
    diag_for_unify_error, solve_order, Constraint, ConstraintOrigin, InferState,
};
use x07c::tapp::{diag_for_tapp_elab, tapp_call_rewrite_expr};
use x07c::typecheck::{
    typecheck_sort_diagnostics_in_place, TappRewrite, TypecheckSigs,
};
use x07c::unify::{TyTerm, UnifyError};

fn named(s: &str) -> TyTerm {
    TyTerm::Named(s.to_string())
}

fn ident(name: &str, ptr: &str) -> Expr {
    Expr::Ident { name: name.to_string(), ptr: ptr.to_string() }
}

fn diag(ptr: &str, code: &str, message: &str) -> Diagnostic {
    Diagnostic {
        code: code.to_string(),
        severity: Severity::Error,
        stage: Stage::Type,
        message: message.to_string(),
        loc: Some(Location::X07Ast { ptr: ptr.to_string() }),
        notes: Vec::new(),
        related: Vec::new(),
        data: Vec::new(),
        quickfix: None,
    }
}

#[test]
fn new_state_binds_input_as_bytes_view() {
    let st = InferState::new("main", named("bytes"));
    let v = st.lookup("input").expect("input is bound");
    assert_eq!(v.ty, named("bytes_view"));
    assert!(st.lookup("x").is_none());
}

#[test]
fn inner_scopes_shadow_and_pop() {
    let mut st = InferState::new("main", named("bytes"));
    st.bind("x".to_string(), x07c::unify::TyInfoTerm::unbranded(named("i32")));
    st.push_scope();
    st.bind("x".to_string(), x07c::unify::TyInfoTerm::unbranded(named("bytes")));
    assert_eq!(st.lookup("x").expect("bound").ty, named("bytes"));
    st.pop_scope();
    assert_eq!(st.lookup("x").expect("bound").ty, named("i32"));
}

#[test]
fn unknown_identifier_is_reported_with_a_fresh_meta() {
    let sigs = TypecheckSigs::new();
    let mut st = InferState::new("main", named("bytes"));
    let got = st.infer_expr(&sigs, &ident("nope", "/solve"), None);
    assert_eq!(got.ty, TyTerm::Meta(0));
    assert_eq!(st.diagnostics.len(), 1);
    assert_eq!(st.diagnostics[0].code, "X07-TYPE-0001");
    assert_eq!(st.diagnostics[0].message, "unknown identifier: \"nope\"");
    let got = st.infer_expr(&sigs, &Expr::Int { value: 7, ptr: "/x".to_string() }, None);
    assert_eq!(got.ty, named("i32"));
}

#[test]
fn unknown_callee_reported_only_for_own_module() {
    let st = InferState::new("main", named("bytes"));
    assert!(st.should_diag_unknown_callee("main.f"));
    assert!(!st.should_diag_unknown_callee("other.f"));
    assert!(!st.should_diag_unknown_callee("main"));
    assert!(!st.should_diag_unknown_callee("mainx.f"));
}

#[test]
fn fresh_meta_counts_up() {
    let mut st = InferState::new("main", named("bytes"));
    assert_eq!(st.fresh_meta(), TyTerm::Meta(0));
    assert_eq!(st.fresh_meta(), TyTerm::Meta(1));
    assert_eq!(st.meta_counter, 2);
}

fn constraint(ptr: &str, origin: ConstraintOrigin) -> Constraint {
    Constraint { lhs: named("i32"), rhs: named("i32"), blame_ptr: ptr.to_string(), origin }
}

#[test]
fn solve_order_sorts_by_pointer_origin_and_call_argument() {
    let cs = vec![
        constraint("/b", ConstraintOrigin::ExprCheck),
        constraint(
            "/a",
            ConstraintOrigin::CallArg { callee: "f".to_string(), arg_index: 1, callee_decl_ptr: None },
        ),
        constraint("/a", ConstraintOrigin::Return),
        constraint(
            "/a",
            ConstraintOrigin::CallArg { callee: "f".to_string(), arg_index: 0, callee_decl_ptr: None },
        ),
        constraint("/b", ConstraintOrigin::ExprCheck),
    ];
    assert_eq!(solve_order(&cs), vec![3, 1, 2, 0, 4]);
}

#[test]
fn solve_stops_at_first_failure_in_order() {
    let mut st = InferState::new("main", named("bytes"));
    st.add_constraint(named("i32"), named("bytes"), "/z".to_string(), ConstraintOrigin::IfCond);
    st.add_constraint(named("bytes"), named("i32"), "/a".to_string(), ConstraintOrigin::Return);
    st.solve_constraints();
    assert_eq!(st.diagnostics.len(), 1);
    assert_eq!(st.diagnostics[0].code, "X07-TYPE-RET-0001");
}

#[test]
fn solving_binds_metas() {
    let mut st = InferState::new("main", named("bytes"));
    st.add_constraint(TyTerm::Meta(0), named("i32"), "/a".to_string(), ConstraintOrigin::ExprCheck);
    st.solve_constraints();
    assert!(st.diagnostics.is_empty());
    assert_eq!(st.subst.resolve(&TyTerm::Meta(0)), named("i32"));
}

#[test]
fn call_arg_mismatch_diag_fields() {
    let c = Constraint {
        lhs: named("bytes"),
        rhs: named("i32"),
        blame_ptr: "/solve/2/1".to_string(),
        origin: ConstraintOrigin::CallArg {
            callee: "main.id".to_string(),
            arg_index: 0,
            callee_decl_ptr: Some("/decls/0".to_string()),
        },
    };
    let e = UnifyError { lhs: named("bytes"), rhs: named("i32"), reason: "named_mismatch".to_string() };
    let d = diag_for_unify_error(&c, &e);
    assert_eq!(d.code, "X07-TYPE-CALL-0002");
    assert_eq!(d.message, "call arg type mismatch for \"main.id\" (arg 0)");
    assert_eq!(d.related, vec![Location::X07Ast { ptr: "/decls/0".to_string() }]);
    assert_eq!(
        d.data,
        vec![
            ("arg_index".to_string(), DiagValue::UInt(0)),
            ("callee".to_string(), DiagValue::Str("main.id".to_string())),
            ("expected".to_string(), DiagValue::Str("i32".to_string())),
            ("got".to_string(), DiagValue::Str("bytes".to_string())),
        ]
    );
}

#[test]
fn expr_check_diag_reports_reason() {
    let c = Constraint {
        lhs: TyTerm::Meta(4),
        rhs: named("i32"),
        blame_ptr: "/p".to_string(),
        origin: ConstraintOrigin::ExprCheck,
    };
    let e = UnifyError { lhs: TyTerm::Meta(4), rhs: named("i32"), reason: "occurs_check".to_string() };
    let d = diag_for_unify_error(&c, &e);
    assert_eq!(d.code, "X07-TYPE-UNIFY-0001");
    assert_eq!(
        d.data[0],
        (
            "lhs".to_string(),
            DiagValue::Arr(vec![DiagValue::Str("meta".to_string()), DiagValue::UInt(4)])
        )
    );
    assert_eq!(d.data[1], ("reason".to_string(), DiagValue::Str("occurs_check".to_string())));
}

#[test]
fn tapp_rewrite_inserts_type_args_after_callee() {
    let before = DiagValue::Arr(vec![
        DiagValue::Str("main.id".to_string()),
        DiagValue::Int(5),
    ]);
    let after = tapp_call_rewrite_expr(&before, "main.id", &vec![TypeRef::Named("i32".to_string())])
        .expect("array");
    assert_eq!(
        after,
        DiagValue::Arr(vec![
            DiagValue::Str("tapp".to_string()),
            DiagValue::Str("main.id".to_string()),
            DiagValue::Arr(vec![DiagValue::Str("tys".to_string()), DiagValue::Str("i32".to_string())]),
            DiagValue::Int(5),
        ])
    );
    assert!(tapp_call_rewrite_expr(&DiagValue::Arr(vec![]), "f", &vec![]).is_none());
    assert!(tapp_call_rewrite_expr(&DiagValue::Str("x".to_string()), "f", &vec![]).is_none());
}

#[test]
fn tapp_elab_diag_has_test_and_replace_patch() {
    let r = TappRewrite {
        call_ptr: "/solve".to_string(),
        callee: "main.id".to_string(),
        inferred_type_args: vec![TypeRef::Named("i32".to_string())],
    };
    let before = DiagValue::Arr(vec![DiagValue::Str("main.id".to_string())]);
    let after = DiagValue::Str("after".to_string());
    let d = diag_for_tapp_elab(&r, &before, after);
    assert_eq!(d.code, "X07-TAPP-ELAB-0001");
    assert_eq!(d.stage, Stage::Rewrite);
    assert_eq!(d.message, "insert inferred tapp for \"main.id\"");
    let q = d.quickfix.expect("quickfix");
    assert_eq!(q.patch.len(), 2);
    assert_eq!(q.note.as_deref(), Some("Insert tapp"));
}

#[test]
fn diagnostics_sort_by_pointer_code_message_stably() {
    let mut ds = vec![
        diag("/b", "X2", "m"),
        diag("/a", "X9", "z"),
        diag("/a", "X1", "b"),
        diag("/a", "X1", "a"),
        diag("/b", "X2", "m"),
    ];
    ds[4].notes.push("second".to_string());
    typecheck_sort_diagnostics_in_place(&mut ds);
    let keys: Vec<(String, String, String)> = ds
        .iter()
        .map(|d| {
            let p = match &d.loc {
                Some(Location::X07Ast { ptr }) => ptr.clone(),
                _ => String::new(),
            };
            (p, d.code.clone(), d.message.clone())
        })
        .collect();
    assert_eq!(
        keys,
        vec![
            ("/a".to_string(), "X1".to_string(), "a".to_string()),
            ("/a".to_string(), "X1".to_string(), "b".to_string()),
            ("/a".to_string(), "X9".to_string(), "z".to_string()),
            ("/b".to_string(), "X2".to_string(), "m".to_string()),
            ("/b".to_string(), "X2".to_string(), "m".to_string()),
        ]
    );
    assert!(ds[3].notes.is_empty());
    assert_eq!(ds[4].notes, vec!["second".to_string()]);
}

#[test]
fn constraints_after_a_failure_are_left_unsolved() {
    let mut st = InferState::new("main", named("bytes"));
    st.add_constraint(TyTerm::Meta(0), named("i32"), "/b".to_string(), ConstraintOrigin::ExprCheck);
    st.add_constraint(named("i32"), named("bytes"), "/a".to_string(), ConstraintOrigin::ExprCheck);
    st.solve_constraints();
    assert_eq!(st.diagnostics.len(), 1);
    assert_eq!(st.constraints[0].blame_ptr, "/a");
    assert_eq!(st.constraints[1].blame_ptr, "/b");
    assert_eq!(st.subst.resolve(&TyTerm::Meta(0)), TyTerm::Meta(0));
}

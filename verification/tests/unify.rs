use x07c::unify::{unify, Subst, TyTerm};

#[test]
fn unify_meta_with_named_is_deterministic() {
    let mut s = Subst::default();
    unify(&mut s, &TyTerm::Meta(0), &TyTerm::Named("i32".to_string())).expect("unify");
    assert_eq!(
        s.resolve(&TyTerm::Meta(0)),
        TyTerm::Named("i32".to_string())
    );
}

#[test]
fn unify_structural_app() {
    let mut s = Subst::default();
    let a = TyTerm::App {
        head: "vec".to_string(),
        args: vec![TyTerm::Meta(0)],
    };
    let b = TyTerm::App {
        head: "vec".to_string(),
        args: vec![TyTerm::Named("i32".to_string())],
    };
    unify(&mut s, &a, &b).expect("unify");
    assert_eq!(
        s.resolve(&TyTerm::Meta(0)),
        TyTerm::Named("i32".to_string())
    );
}

#[test]
fn unify_occurs_check_fails() {
    let mut s = Subst::default();
    let a = TyTerm::Meta(0);
    let b = TyTerm::App {
        head: "vec".to_string(),
        args: vec![TyTerm::Meta(0)],
    };
    let err = unify(&mut s, &a, &b).expect_err("must fail occurs check");
    assert_eq!(err.reason, "occurs_check");
}

#[test]
fn unify_named_mismatch_reports_both_sides() {
    let mut s = Subst::default();
    let err = unify(
        &mut s,
        &TyTerm::Named("i32".to_string()),
        &TyTerm::Named("bytes".to_string()),
    )
    .expect_err("mismatch");
    assert_eq!(err.reason, "named_mismatch");
    assert_eq!(err.lhs, TyTerm::Named("i32".to_string()));
    assert_eq!(err.rhs, TyTerm::Named("bytes".to_string()));
}

#[test]
fn unify_app_head_mismatch() {
    let mut s = Subst::default();
    let a = TyTerm::App { head: "vec".to_string(), args: vec![] };
    let b = TyTerm::App { head: "opt".to_string(), args: vec![] };
    assert_eq!(unify(&mut s, &a, &b).unwrap_err().reason, "app_mismatch");
}

#[test]
fn unify_constructor_mismatch() {
    let mut s = Subst::default();
    let err = unify(&mut s, &TyTerm::Never, &TyTerm::TParam("A".to_string())).unwrap_err();
    assert_eq!(err.reason, "mismatch");
}

#[test]
fn unify_tparam_mismatch() {
    let mut s = Subst::default();
    let err = unify(
        &mut s,
        &TyTerm::TParam("A".to_string()),
        &TyTerm::TParam("B".to_string()),
    )
    .unwrap_err();
    assert_eq!(err.reason, "tparam_mismatch");
}

#[test]
fn unify_chain_of_metas_resolves_transitively() {
    let mut s = Subst::default();
    unify(&mut s, &TyTerm::Meta(0), &TyTerm::Meta(1)).unwrap();
    unify(&mut s, &TyTerm::Meta(1), &TyTerm::Named("bytes".to_string())).unwrap();
    assert_eq!(s.resolve(&TyTerm::Meta(0)), TyTerm::Named("bytes".to_string()));
    // After success both sides resolve to the same term.
    assert_eq!(s.resolve(&TyTerm::Meta(0)), s.resolve(&TyTerm::Meta(1)));
}

#[test]
fn bind_then_resolve_follows_binding() {
    let mut s = Subst::default();
    s.bind(0, TyTerm::Named("i32".to_string()));
    let t = TyTerm::App { head: "vec".to_string(), args: vec![TyTerm::Meta(0), TyTerm::Meta(7)] };
    assert_eq!(
        s.resolve(&t),
        TyTerm::App {
            head: "vec".to_string(),
            args: vec![TyTerm::Named("i32".to_string()), TyTerm::Meta(7)]
        }
    );
}

#[test]
fn unify_failure_keeps_earlier_bindings_and_reports_the_clash_in_order() {
    let mut s = Subst::default();
    let named = |n: &str| TyTerm::Named(n.to_string());
    let a = TyTerm::App { head: "pair".to_string(), args: vec![TyTerm::Meta(0), named("i32")] };
    let b = TyTerm::App { head: "pair".to_string(), args: vec![named("bytes"), named("bytes")] };
    let err = unify(&mut s, &a, &b).expect_err("i32 against bytes");
    assert_eq!(err.lhs, named("i32"));
    assert_eq!(err.rhs, named("bytes"));
    assert_eq!(err.reason, "named_mismatch");
    assert_eq!(s.resolve(&TyTerm::Meta(0)), named("bytes"));
}

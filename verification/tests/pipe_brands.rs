use x07c::ast::Expr;
use x07c::compile::CompileErrorKind;
use x07c::pipe_brands::{ensure_brand_validator_sig_v1, typecheck_and_rewrite_item_brands_v1, PipeFnSigsV1};
use x07c::program::{FunctionDef, FunctionParam, Program};
use x07c::stream_pipe::{parse_pipe_v1, PipeParsed, PipeXfV1};
use x07c::types::Ty;

fn ident(name: &str) -> Expr {
    Expr::Ident { name: name.to_string(), ptr: String::new() }
}

fn int_lit(value: i32) -> Expr {
    Expr::Int { value, ptr: String::new() }
}

fn list(items: Vec<Expr>) -> Expr {
    Expr::List { items, ptr: String::new() }
}

fn at(items: Vec<Expr>, ptr: &str) -> Expr {
    Expr::List { items, ptr: ptr.to_string() }
}

fn kv(key: &str, value: Expr) -> Expr {
    list(vec![ident(key), value])
}

fn wrap(e: Expr) -> Expr {
    list(vec![ident("std.stream.expr_v1"), e])
}

fn fn_ref(name: &str) -> Expr {
    list(vec![ident("std.stream.fn_v1"), ident(name)])
}

fn param(ty: Ty, brand: Option<&str>) -> FunctionParam {
    FunctionParam { name: "x".to_string(), ty, brand: brand.map(|b| b.to_string()) }
}

fn defn(name: &str, params: Vec<FunctionParam>, ret_ty: Ty, ret_brand: Option<&str>) -> FunctionDef {
    FunctionDef { name: name.to_string(), params, ret_ty, ret_brand: ret_brand.map(|b| b.to_string()), body: int_lit(0) }
}

fn sigs() -> PipeFnSigsV1 {
    let program = Program {
        functions: vec![
            defn("app.check_b", vec![param(Ty::BytesView, None)], Ty::ResultI32, None),
            defn("app.bad_validator", vec![param(Ty::Bytes, None)], Ty::ResultI32, None),
            defn("app.use_b", vec![param(Ty::BytesView, Some("app.b"))], Ty::Bytes, None),
            defn("app.make_b", vec![param(Ty::BytesView, None)], Ty::Bytes, Some("app.b")),
        ],
        async_functions: Vec::new(),
        extern_functions: Vec::new(),
        solve: int_lit(0),
    };
    PipeFnSigsV1::build(&program)
}

fn registry() -> Vec<(String, String)> {
    vec![("app.b".to_string(), "app.check_b".to_string())]
}

fn pipe(cfg_extra: Vec<Expr>, src_brand: Option<&str>, xfs: Vec<Expr>, sink: Expr) -> PipeParsed {
    let mut cfg = vec![
        ident("std.stream.cfg_v1"),
        kv("chunk_max_bytes", int_lit(64)),
        kv("bufread_cap_bytes", int_lit(64)),
        kv("max_in_bytes", int_lit(64)),
        kv("max_out_bytes", int_lit(64)),
        kv("max_items", int_lit(64)),
    ];
    cfg.extend(cfg_extra);
    let mut src = vec![ident("std.stream.src.bytes_v1"), wrap(ident("input"))];
    if let Some(b) = src_brand {
        src.push(kv("out_item_brand", ident(b)));
    }
    let mut chain = vec![ident("std.stream.chain_v1")];
    chain.extend(xfs);
    parse_pipe_v1(&list(vec![ident("std.stream.pipe_v1"), list(cfg), at(src, "/src"), list(chain), sink]))
        .unwrap()
}

fn collect() -> Expr {
    at(vec![ident("std.stream.sink.collect_bytes_v1")], "/sink")
}

fn map_bytes(f: &str, ptr: &str) -> Expr {
    at(vec![ident("std.stream.xf.map_bytes_v1"), fn_ref(f)], ptr)
}

#[test]
fn validator_signature_is_checked() {
    let s = sigs();
    assert!(ensure_brand_validator_sig_v1("app.check_b", &s, "/p").is_ok());
    let e = ensure_brand_validator_sig_v1("app.nope", &s, "/p").unwrap_err();
    assert_eq!(e.message, "unknown identifier: \"app.nope\" (ptr=/p)");
    let e = ensure_brand_validator_sig_v1("app.bad_validator", &s, "/p").unwrap_err();
    assert_eq!(
        e.message,
        "E_PIPE_BRAND_VALIDATOR_SIG: \"app.bad_validator\" must have signature (bytes_view) -> result_i32 (ptr=/p)"
    );
}

#[test]
fn matching_brands_pass_unchanged() {
    let mut p = pipe(Vec::new(), Some("app.b"), vec![map_bytes("app.use_b", "/x0")], collect());
    typecheck_and_rewrite_item_brands_v1(&mut p, &registry(), &sigs()).unwrap();
    assert_eq!(p.chain.len(), 1);
}

#[test]
fn unbranded_input_is_refused_without_auto() {
    let mut p = pipe(Vec::new(), None, vec![map_bytes("app.use_b", "/x0")], collect());
    let e = typecheck_and_rewrite_item_brands_v1(&mut p, &registry(), &sigs()).unwrap_err();
    assert_eq!(e.kind, CompileErrorKind::Typing);
    assert_eq!(e.message, "E_PIPE_BRAND_REQUIRED: expected bytes_view@app.b, got unbranded (ptr=/x0)");
}

#[test]
fn auto_inserts_require_brand() {
    let mut p = pipe(vec![kv("auto_require_brand_v1", int_lit(1))], None, vec![map_bytes("app.use_b", "/x0")], collect());
    typecheck_and_rewrite_item_brands_v1(&mut p, &registry(), &sigs()).unwrap();
    assert_eq!(p.chain.len(), 2);
    match &p.chain[0].kind {
        PipeXfV1::RequireBrandV1 { brand_id, validator_id, max_item_bytes } => {
            assert_eq!(brand_id, "app.b");
            assert_eq!(validator_id.as_deref(), Some("app.check_b"));
            assert_eq!(*max_item_bytes, 0);
        }
        other => panic!("unexpected {other:?}"),
    }
    assert_eq!(p.chain[0].ptr, "/x0");
}

#[test]
fn mismatched_brand_is_refused() {
    let mut p = pipe(Vec::new(), Some("app.other"), vec![map_bytes("app.use_b", "/x0")], collect());
    let e = typecheck_and_rewrite_item_brands_v1(&mut p, &registry(), &sigs()).unwrap_err();
    assert_eq!(e.message, "E_PIPE_BRAND_MISMATCH: expected bytes_view@app.b, got bytes_view@app.other (ptr=/x0)");
}

#[test]
fn produced_brands_are_verified_when_asked() {
    let mut p = pipe(
        vec![kv("verify_produced_brands_v1", int_lit(1))],
        None,
        vec![map_bytes("app.make_b", "/x0")],
        collect(),
    );
    typecheck_and_rewrite_item_brands_v1(&mut p, &registry(), &sigs()).unwrap();
    assert_eq!(p.chain.len(), 2);
    assert!(matches!(p.chain[1].kind, PipeXfV1::RequireBrandV1 { .. }));
}

#[test]
fn sink_requirement_is_checked() {
    let sink = at(vec![ident("std.stream.sink.null_v1"), kv("in_item_brand", ident("app.b"))], "/sink");
    let mut p = pipe(Vec::new(), None, Vec::new(), sink);
    let e = typecheck_and_rewrite_item_brands_v1(&mut p, &registry(), &sigs()).unwrap_err();
    assert_eq!(e.message, "E_PIPE_BRAND_REQUIRED: sink expected bytes_view@app.b, got unbranded (ptr=/sink)");
}

#[test]
fn validators_resolve_even_when_typing_is_off() {
    let rb = at(vec![ident("std.stream.xf.require_brand_v1"), kv("brand", ident("app.b"))], "/x0");
    let mut p = pipe(vec![kv("typecheck_item_brands_v1", int_lit(0))], None, vec![rb], collect());
    typecheck_and_rewrite_item_brands_v1(&mut p, &registry(), &sigs()).unwrap();
    match &p.chain[0].kind {
        PipeXfV1::RequireBrandV1 { validator_id, .. } => assert_eq!(validator_id.as_deref(), Some("app.check_b")),
        other => panic!("unexpected {other:?}"),
    }
    let rb = at(vec![ident("std.stream.xf.require_brand_v1"), kv("brand", ident("app.c"))], "/x1");
    let mut p = pipe(vec![kv("typecheck_item_brands_v1", int_lit(0))], None, vec![rb], collect());
    let e = typecheck_and_rewrite_item_brands_v1(&mut p, &registry(), &sigs()).unwrap_err();
    assert_eq!(
        e.message,
        "E_PIPE_BRAND_REGISTRY_MISSING: brand \"app.c\" is missing meta.brands_v1.validate (ptr=/x1)"
    );
}

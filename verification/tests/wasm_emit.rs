use x07c::ast::Expr;
use x07c::compile::{CompileErrorKind, CompileOptions};
use x07c::program::{AsyncFunctionDef, ExternFunctionRef, FunctionDef, FunctionParam, Program};
use x07c::types::Ty;
use x07c::wasm_emit::emit_module::{
    encode_locals, flatten_valtypes, validate_mem_limits, Binding, DataBuilder, ExprEmitter, FuncCode, Instr,
    ModuleCtx, ValKind,
};
use x07c::wasm_emit::features::{supported_features_v1, WasmFeatureSetV1};
use x07c::wasm_emit::{emit_solve_pure_wasm_v1, WasmEmitOptions, WasmMemLimits};

fn ident(name: &str) -> Expr {
    Expr::Ident { name: name.to_string(), ptr: String::new() }
}

fn int_lit(value: i32) -> Expr {
    Expr::Int { value, ptr: String::new() }
}

fn list(items: Vec<Expr>) -> Expr {
    Expr::List { items, ptr: String::new() }
}

fn mem(initial: u64, max: u64, fixed: bool) -> WasmMemLimits {
    WasmMemLimits { initial_memory_bytes: initial, max_memory_bytes: max, no_growable_memory: fixed }
}

fn opts() -> WasmEmitOptions {
    WasmEmitOptions { mem: mem(65536, 131072, false), features: supported_features_v1() }
}

fn program(functions: Vec<FunctionDef>, solve: Expr) -> Program {
    Program { functions, async_functions: Vec::new(), extern_functions: Vec::new(), solve }
}

fn pure() -> CompileOptions {
    CompileOptions { freestanding: true, world_is_solve_pure: true }
}

#[test]
fn mem_limits_in_pages() {
    assert_eq!(validate_mem_limits(&mem(65536, 131072, false)).ok(), Some((1, 2)));
    assert_eq!(validate_mem_limits(&mem(0, 0, true)).ok(), Some((0, 0)));
}

#[test]
fn mem_limits_errors() {
    let e = validate_mem_limits(&mem(100, 65536, false)).unwrap_err();
    assert_eq!(e.kind, CompileErrorKind::Parse);
    assert_eq!(e.message, "wasm initial_memory_bytes must be a multiple of 65536 (got 100)");
    let e = validate_mem_limits(&mem(65536, 65537, false)).unwrap_err();
    assert_eq!(e.message, "wasm max_memory_bytes must be a multiple of 65536 (got 65537)");
    let e = validate_mem_limits(&mem(131072, 65536, false)).unwrap_err();
    assert_eq!(e.message, "wasm max_memory_bytes must be >= initial_memory_bytes (initial=131072 max=65536)");
    let e = validate_mem_limits(&mem(65536, 131072, true)).unwrap_err();
    assert_eq!(
        e.message,
        "wasm-no-growable-memory requires max_memory_bytes == initial_memory_bytes (initial=65536 max=131072)"
    );
}

#[test]
fn locals_are_run_length_encoded() {
    assert_eq!(encode_locals(&vec![ValKind::I32, ValKind::I32, ValKind::I32]), vec![(3, ValKind::I32)]);
    assert_eq!(encode_locals(&Vec::new()), Vec::new());
}

#[test]
fn signature_types_flatten_to_i32s() {
    assert_eq!(flatten_valtypes(&vec![Ty::I32, Ty::Bytes, Ty::VecU8, Ty::Never]).unwrap().len(), 6);
    let e = flatten_valtypes(&vec![Ty::OptionI32]).unwrap_err();
    assert_eq!(e.kind, CompileErrorKind::Unsupported);
    assert_eq!(e.message, "wasm backend: unsupported type in signature: OptionI32");
}

#[test]
fn solve_only_program_has_runtime_functions() {
    let p = program(Vec::new(), list(vec![ident("bytes.alloc"), int_lit(4)]));
    let plan = emit_solve_pure_wasm_v1(&p, &pure(), &opts()).unwrap();
    assert_eq!(plan.funcs.len(), 3);
    assert_eq!(plan.entry_fn, 2);
    assert_eq!((plan.initial_pages, plan.max_pages), (1, 2));
    assert_eq!((plan.funcs[0].params.len(), plan.funcs[0].results.len()), (2, 1));
    assert_eq!((plan.funcs[1].params.len(), plan.funcs[1].results.len()), (2, 2));
    assert_eq!((plan.funcs[2].params.len(), plan.funcs[2].results.len()), (5, 0));
    for f in &plan.funcs {
        assert_eq!(f.body.last(), Some(&Instr::End));
    }
    assert_eq!(plan.data.len() % 16, 0);
    assert_eq!(plan.data_end as usize, plan.data.len());
}

#[test]
fn user_function_signature_is_flattened() {
    let f = FunctionDef {
        name: "main.len".to_string(),
        params: vec![FunctionParam { name: "b".to_string(), ty: Ty::Bytes, brand: None }],
        ret_ty: Ty::I32,
        ret_brand: None,
        body: list(vec![ident("bytes.len"), ident("b")]),
    };
    let p = program(vec![f], list(vec![ident("bytes.alloc"), int_lit(0)]));
    let plan = emit_solve_pure_wasm_v1(&p, &pure(), &opts()).unwrap();
    assert_eq!(plan.funcs.len(), 4);
    assert_eq!(plan.entry_fn, 3);
    assert_eq!((plan.funcs[1].params.len(), plan.funcs[1].results.len()), (2, 1));
}

#[test]
fn option_errors_come_in_order() {
    let p = program(Vec::new(), list(vec![ident("bytes.alloc"), int_lit(4)]));
    let bad_mem = WasmEmitOptions { mem: mem(1, 65536, false), features: supported_features_v1() };
    let e = emit_solve_pure_wasm_v1(&p, &CompileOptions { freestanding: false, world_is_solve_pure: false }, &bad_mem)
        .unwrap_err();
    assert_eq!(e.kind, CompileErrorKind::Parse);
    let e = emit_solve_pure_wasm_v1(&p, &CompileOptions { freestanding: false, world_is_solve_pure: true }, &opts())
        .unwrap_err();
    assert_eq!(e.kind, CompileErrorKind::Unsupported);
    assert_eq!(e.message, "wasm backend currently requires freestanding=true");
    let e = emit_solve_pure_wasm_v1(&p, &CompileOptions { freestanding: true, world_is_solve_pure: false }, &opts())
        .unwrap_err();
    assert_eq!(e.message, "wasm backend currently supports only --world solve-pure");
    let mut p2 = program(Vec::new(), list(vec![ident("bytes.alloc"), int_lit(4)]));
    p2.extern_functions.push(ExternFunctionRef { name: "ext.f".to_string(), params: Vec::new(), ret_ty: Ty::I32 });
    let e = emit_solve_pure_wasm_v1(&p2, &pure(), &opts()).unwrap_err();
    assert_eq!(e.message, "wasm backend does not yet support async or extern functions");
    let mut p3 = program(Vec::new(), list(vec![ident("bytes.alloc"), int_lit(4)]));
    p3.async_functions.push(AsyncFunctionDef {
        name: "main.a".to_string(),
        params: Vec::new(),
        ret_ty: Ty::Bytes,
        ret_brand: None,
        body: int_lit(0),
    });
    let e = emit_solve_pure_wasm_v1(&p3, &pure(), &opts()).unwrap_err();
    assert_eq!(e.kind, CompileErrorKind::Unsupported);
}

#[test]
fn solve_must_return_bytes() {
    let p = program(Vec::new(), int_lit(7));
    let e = emit_solve_pure_wasm_v1(&p, &pure(), &opts()).unwrap_err();
    assert_eq!(e.kind, CompileErrorKind::Typing);
    assert_eq!(e.message, "solve expression must return bytes (got I32)");
}

#[test]
fn duplicate_function_names_leave_an_index_without_a_name() {
    let mk = || FunctionDef {
        name: "main.f".to_string(),
        params: Vec::new(),
        ret_ty: Ty::I32,
        ret_brand: None,
        body: int_lit(1),
    };
    let p = program(vec![mk(), mk()], list(vec![ident("bytes.alloc"), int_lit(4)]));
    let e = emit_solve_pure_wasm_v1(&p, &pure(), &opts()).unwrap_err();
    assert_eq!(e.kind, CompileErrorKind::Internal);
    assert_eq!(e.message, "internal error: missing func name for idx=1");
}

#[test]
fn return_type_mismatch_is_reported() {
    let f = FunctionDef {
        name: "main.f".to_string(),
        params: Vec::new(),
        ret_ty: Ty::Bytes,
        ret_brand: None,
        body: int_lit(1),
    };
    let p = program(vec![f], list(vec![ident("bytes.alloc"), int_lit(4)]));
    let e = emit_solve_pure_wasm_v1(&p, &pure(), &opts()).unwrap_err();
    assert_eq!(e.kind, CompileErrorKind::Typing);
    assert_eq!(e.message, "function return type mismatch: fn=\"main.f\" got=I32 want=Bytes");
}

fn emitter(features: WasmFeatureSetV1) -> ExprEmitter {
    let module = ModuleCtx {
        func_indices: Vec::new(),
        func_sigs: Vec::new(),
        features,
        data: DataBuilder::new(),
        rt_alloc_fn: 0,
        solve_fn: 1,
        heap_base_global: 0,
        heap_ptr_global: 1,
        heap_end_global: 2,
    };
    ExprEmitter::new(module, FuncCode::new(2))
}

#[test]
fn infer_ty_follows_bindings_and_forms() {
    let mut e = emitter(supported_features_v1());
    assert!(e.bind("x".to_string(), Binding { ty: Ty::Bytes, locals: vec![0, 1] }).is_ok());
    assert!(matches!(e.infer_ty(&int_lit(7)), Ok(Ty::I32)));
    assert!(matches!(e.infer_ty(&ident("x")), Ok(Ty::Bytes)));
    assert!(e.infer_ty(&ident("y")).is_err());
    assert!(matches!(e.infer_ty(&list(vec![ident("begin"), int_lit(1), ident("x")])), Ok(Ty::Bytes)));
    let ret = list(vec![ident("return"), int_lit(0)]);
    assert!(matches!(e.infer_ty(&list(vec![ident("if"), int_lit(1), ret, ident("x")])), Ok(Ty::Bytes)));
    assert!(e.infer_ty(&list(vec![ident("if"), int_lit(1), int_lit(2), ident("x")])).is_err());
    assert!(matches!(e.infer_ty(&list(vec![ident("view.len"), ident("x")])), Ok(Ty::I32)));
    assert!(e.infer_ty(&list(vec![ident("no_such_fn"), int_lit(1)])).is_err());
}

#[test]
fn infer_ty_refuses_forms_whose_feature_is_off() {
    let e = emitter(WasmFeatureSetV1 { enabled: Vec::new() });
    assert!(matches!(e.infer_ty(&int_lit(7)), Ok(Ty::I32)));
    match e.infer_ty(&list(vec![ident("begin"), int_lit(1)])) {
        Err(err) => assert!(matches!(err.kind, CompileErrorKind::Unsupported)),
        Ok(_) => panic!("begin needs the core forms feature"),
    }
}

#[test]
fn emit_expr_of_operands_is_their_type() {
    let mut e = emitter(supported_features_v1());
    assert!(e.bind("v".to_string(), Binding { ty: Ty::VecU8, locals: vec![0, 1, 2] }).is_ok());
    assert!(matches!(e.emit_expr(&ident("v")), Ok(Ty::VecU8)));
    assert!(matches!(e.emit_expr(&int_lit(3)), Ok(Ty::I32)));
    assert!(matches!(e.emit_expr(&list(vec![ident("vec_u8.len"), ident("v")])), Ok(Ty::I32)));
    assert!(matches!(e.emit_expr(&list(vec![ident("+"), int_lit(1), int_lit(2)])), Ok(Ty::I32)));
    assert!(e.emit_expr(&list(vec![ident("vec_u8.len"), int_lit(1)])).is_err());
}

#[test]
fn bytes_lit_solve_lowers_with_its_module_layout() {
    let p = program(Vec::new(), list(vec![ident("bytes.lit"), ident("hello")]));
    let plan = emit_solve_pure_wasm_v1(&p, &pure(), &opts()).unwrap();
    assert!(plan.data.len() >= 5);
    let desc = x07c::wasm_emit::module_desc::module_desc(&plan);
    let names: Vec<&str> = desc.exports.iter().map(|e| e.name.as_str()).collect();
    assert_eq!(names, vec!["memory", "x07_solve_v2", "__data_end", "__heap_base"]);
    assert_eq!(desc.exports[1].index, plan.entry_fn);
    assert_eq!(desc.globals.len(), 5);
    assert!(desc.globals.iter().all(|g| g.init == plan.data_end as i32));
    assert_eq!(desc.globals.iter().filter(|g| g.mutable).count(), 3);
    assert!(desc.data_segment);
}

#[test]
fn arithmetic_heads_emit_their_operands_then_the_operator() {
    let mut e = emitter(supported_features_v1());
    assert!(e.bind("n".to_string(), Binding { ty: Ty::I32, locals: vec![4] }).is_ok());
    assert!(matches!(e.emit_expr(&list(vec![ident("+"), int_lit(1), int_lit(2)])), Ok(Ty::I32)));
    assert_eq!(e.f.body, vec![Instr::I32Const(1), Instr::I32Const(2), Instr::I32Add]);
    assert!(matches!(e.emit_expr(&list(vec![ident("-"), ident("n"), int_lit(3)])), Ok(Ty::I32)));
    assert_eq!(
        e.f.body[3..].to_vec(),
        vec![Instr::LocalGet(4), Instr::I32Const(3), Instr::I32Sub]
    );
    assert!(matches!(e.emit_expr(&list(vec![ident("<"), int_lit(1), int_lit(2)])), Ok(Ty::I32)));
    assert_eq!(*e.f.body.last().unwrap(), Instr::I32LtS);
}

#[test]
fn integer_definitions_lower_to_their_constant() {
    let one = FunctionDef {
        name: "main.one".to_string(),
        params: Vec::new(),
        ret_ty: Ty::I32,
        ret_brand: None,
        body: int_lit(7),
    };
    let id = FunctionDef {
        name: "main.id".to_string(),
        params: vec![FunctionParam { name: "x".to_string(), ty: Ty::Bytes, brand: None }],
        ret_ty: Ty::Bytes,
        ret_brand: None,
        body: ident("x"),
    };
    let p = program(vec![one, id], list(vec![ident("bytes.lit"), ident("ok")]));
    let plan = emit_solve_pure_wasm_v1(&p, &pure(), &opts()).unwrap();
    assert_eq!(plan.funcs.len(), 5);
    assert_eq!(plan.funcs[1].body, vec![Instr::I32Const(7), Instr::End]);
    assert_eq!(plan.funcs[2].body, vec![Instr::LocalGet(0), Instr::LocalGet(1), Instr::End]);
    assert_eq!((plan.funcs[2].params.len(), plan.funcs[2].results.len()), (2, 2));
}

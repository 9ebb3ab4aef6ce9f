use x07c::ast::Expr;
use x07c::compile::CompileErrorKind;
use x07c::pipe_stages::{
    check_plugin_world_v1, lookup_stream_plugin_v1, pipe_uses_stream_plugins, plan_pipe_stages_v1, plan_stage_v1,
    resolve_stream_plugins_v1, CfgWordV1, PipeStagesOutcomeV1, PluginCfgV1, PluginErrMapV1, StagePlanV1,
};
use x07c::stream_pipe::{
    parse_pipe_v1, pipe_limits_v1, JsonCanonStreamCfgV1, ParMapStreamCfgV1, PipeItemBrandInV1, PipeItemBrandOutV1,
    PipeLimitsOutcomeV1, PipeLimitsV1, PipeParsed, PipeXfDescV1, PipeXfV1,
};
use x07c::stream_plugins::{
    resolve_plugin_spec_v1, StreamPluginLimitsV1, StreamPluginRegistryV1, StreamPluginSpecFileV1,
    StreamPluginsIndexEntryV1,
};

fn ident(name: &str) -> Expr {
    Expr::Ident { name: name.to_string(), ptr: String::new() }
}

fn int_lit(value: i32) -> Expr {
    Expr::Int { value, ptr: String::new() }
}

fn list(items: Vec<Expr>) -> Expr {
    Expr::List { items, ptr: String::new() }
}

fn kv(key: &str, value: Expr) -> Expr {
    list(vec![ident(key), value])
}

fn wrap(e: Expr) -> Expr {
    list(vec![ident("std.stream.expr_v1"), e])
}

fn base_pipe(nondet: bool) -> PipeParsed {
    let mut cfg = vec![
        ident("std.stream.cfg_v1"),
        kv("chunk_max_bytes", int_lit(64)),
        kv("bufread_cap_bytes", int_lit(128)),
        kv("max_in_bytes", int_lit(1000)),
        kv("max_out_bytes", int_lit(2000)),
        kv("max_items", int_lit(10)),
    ];
    if nondet {
        cfg.push(kv("allow_nondet_v1", int_lit(1)));
    }
    parse_pipe_v1(&list(vec![
        ident("std.stream.pipe_v1"),
        list(cfg),
        list(vec![ident("std.stream.src.bytes_v1"), wrap(ident("b"))]),
        list(vec![ident("std.stream.chain_v1")]),
        list(vec![ident("std.stream.sink.collect_bytes_v1")]),
    ]))
    .unwrap()
}

fn limits(p: &PipeParsed) -> PipeLimitsV1 {
    match pipe_limits_v1(p).unwrap() {
        PipeLimitsOutcomeV1::Valid(l) => l,
        other => panic!("unexpected {other:?}"),
    }
}

fn stage(kind: PipeXfV1, ptr: &str) -> PipeXfDescV1 {
    PipeXfDescV1 { kind, in_item_brand: None, out_item_brand: None, ptr: ptr.to_string() }
}

fn plugin(id: &str, worlds: &[&str], determinism: &str, in_brand: &str, out_brand: &str) -> x07c::stream_plugins::StreamPluginResolvedV1 {
    let worlds: Vec<String> = worlds.iter().map(|w| w.to_string()).collect();
    let entry = StreamPluginsIndexEntryV1 {
        plugin_id: id.to_string(),
        plugin_spec_path: format!("arch/stream/plugins/specs/{id}.json"),
        budget_profile_id: "budget.small".to_string(),
        native_backend_id: "native.stream".to_string(),
        abi_major: 1,
        export_symbol: "x07_plugin".to_string(),
        determinism: determinism.to_string(),
        worlds_allowed: worlds.clone(),
        in_item_brand: in_brand.to_string(),
        out_item_brand: out_brand.to_string(),
        state_bytes: 16,
        scratch_bytes: 32,
    };
    let spec = StreamPluginSpecFileV1 {
        schema_version: "x07.sp.v1".to_string(),
        plugin_id: id.to_string(),
        v: 1,
        native_backend_id: "native.stream".to_string(),
        abi_major: 1,
        export_symbol: "x07_plugin".to_string(),
        determinism: determinism.to_string(),
        worlds_allowed: worlds,
        in_item_brand: in_brand.to_string(),
        out_item_brand: out_brand.to_string(),
        state_bytes: 16,
        scratch_bytes: 32,
        cfg_max_bytes: 64,
        cfg_canon_mode: "none_v1".to_string(),
        limits: StreamPluginLimitsV1 { max_out_bytes_per_step: 1, max_out_items_per_step: 2, max_out_buf_bytes: 3 },
    };
    resolve_plugin_spec_v1(&entry, &spec, "s.json").unwrap()
}

fn registry() -> StreamPluginRegistryV1 {
    let mut r = StreamPluginRegistryV1::new();
    r.insert_v1(plugin("xf.split_lines_v1", &["solve-pure"], "deterministic_v1", "any", "none"), "i.json").unwrap();
    r.insert_v1(plugin("xf.json_canon_stream_v1", &[], "deterministic_v1", "any", "same"), "i.json").unwrap();
    r.insert_v1(plugin("app.os_only", &[], "nondet_os_only_v1", "any", "none"), "i.json").unwrap();
    r.insert_v1(plugin("app.upper", &[], "deterministic_v1", "app.text", "app.upper"), "i.json").unwrap();
    r
}

fn par_map(max_inflight: i32, unordered: bool) -> PipeXfV1 {
    PipeXfV1::ParMapStreamV1 {
        cfg: ParMapStreamCfgV1 {
            max_inflight,
            max_item_bytes: 100,
            max_inflight_in_bytes: 0,
            max_out_item_bytes: 100,
            ctx_param: None,
            mapper_defasync: "main.mapper".to_string(),
            scope_cfg: list(vec![ident("task.scope.cfg_v1")]),
            unordered,
            result_bytes: false,
        },
    }
}

fn plugin_v1(id: &str) -> PipeXfV1 {
    PipeXfV1::PluginV1 { plugin_id: id.to_string(), cfg_param: 1, strict_brands: 0, strict_cfg_canon: 1 }
}

#[test]
fn lookup_finds_and_checks_worlds() {
    let r = registry();
    assert_eq!(lookup_stream_plugin_v1(Some(&r), "app.upper", "solve-pure", "/x", "none").unwrap(), 3);
    let e = lookup_stream_plugin_v1(None, "app.upper", "solve-pure", "/x", "no registry").unwrap_err();
    assert_eq!((e.kind, e.message.as_str()), (CompileErrorKind::Typing, "no registry"));
    let e = lookup_stream_plugin_v1(Some(&r), "app.missing", "solve-pure", "/x", "none").unwrap_err();
    assert_eq!(e.kind, CompileErrorKind::Typing);
    assert_eq!(
        e.message,
        "E_PIPE_PLUGIN_NOT_FOUND: stream plugin_id \"app.missing\" is not declared in arch/stream/plugins/index.x07sp.json (ptr=/x)"
    );
    let e = lookup_stream_plugin_v1(Some(&r), "xf.split_lines_v1", "run-os", "/y", "none").unwrap_err();
    assert_eq!(e.kind, CompileErrorKind::Unsupported);
    assert_eq!(
        e.message,
        "E_PIPE_PLUGIN_WORLD_VIOLATION: stream plugin_id \"xf.split_lines_v1\" is not allowed in world run-os (ptr=/y)"
    );
    let e = lookup_stream_plugin_v1(Some(&r), "app.os_only", "solve-pure", "/z", "none").unwrap_err();
    assert_eq!(
        e.message,
        "E_PIPE_PLUGIN_WORLD_VIOLATION: OS-only stream plugin_id \"app.os_only\" is not allowed in solve worlds (ptr=/z)"
    );
    assert_eq!(lookup_stream_plugin_v1(Some(&r), "app.os_only", "run-os-sandboxed", "/z", "none").unwrap(), 2);
    assert!(check_plugin_world_v1(&r.by_id[0].1, "xf.split_lines_v1", "solve-pure", "/").is_ok());
}

#[test]
fn split_lines_stage_plans_its_plugin() {
    let p = base_pipe(false);
    let l = limits(&p);
    let x = stage(PipeXfV1::SplitLines { delim_param: 1, max_line_bytes_param: 2 }, "/chain/1");
    let r = registry();
    let plan = plan_stage_v1(&x, &l, Some(&r), "solve-pure").unwrap();
    assert_eq!(
        plan,
        Some(StagePlanV1::Plugin {
            plugin_at: 0,
            cfg: PluginCfgV1::Words(vec![CfgWordV1::Param(1), CfgWordV1::Param(2)]),
            strict_cfg_canon: 0,
            err_map: PluginErrMapV1::SplitLinesV1,
        })
    );
    let e = plan_stage_v1(&x, &l, None, "solve-pure").unwrap_err();
    assert_eq!(
        e.message,
        "E_PIPE_STREAM_PLUGINS_NEEDS_ARCH_ROOT: std.stream.pipe_v1 requires compile_options.arch_root for plugin-backed xfs"
    );
}

#[test]
fn json_canon_stage_takes_defaults() {
    let p = base_pipe(false);
    let l = limits(&p);
    let x = stage(
        PipeXfV1::JsonCanonStreamV1 {
            cfg: JsonCanonStreamCfgV1 {
                max_depth: 0,
                max_total_json_bytes: 0,
                max_object_members: 7,
                max_object_total_bytes: 0,
                emit_chunk_max_bytes: 0,
            },
        },
        "/j",
    );
    let r = registry();
    let plan = plan_stage_v1(&x, &l, Some(&r), "solve-pure").unwrap();
    let words = [64, 1000, 7, 2000, 64].iter().map(|w| CfgWordV1::Int(*w)).collect::<Vec<_>>();
    assert_eq!(
        plan,
        Some(StagePlanV1::Plugin {
            plugin_at: 1,
            cfg: PluginCfgV1::Words(words),
            strict_cfg_canon: 0,
            err_map: PluginErrMapV1::JsonCanonStreamV1,
        })
    );
}

#[test]
fn simple_stages_need_no_registry() {
    let p = base_pipe(false);
    let l = limits(&p);
    let x = stage(PipeXfV1::Take { n_param: 4 }, "/t");
    assert_eq!(plan_stage_v1(&x, &l, None, "solve-pure").unwrap(), Some(StagePlanV1::Take { n_param: 4 }));
    let x = stage(
        PipeXfV1::MapInPlaceBufV1 { scratch_cap_bytes: -1, clear_before_each: 0, fn_id: "main.f".to_string() },
        "/m",
    );
    assert_eq!(
        plan_stage_v1(&x, &l, None, "solve-pure").unwrap(),
        Some(StagePlanV1::MapInPlace { scratch_cap_bytes: -1 })
    );
    let x = stage(par_map(3, true), "/p");
    assert_eq!(
        plan_stage_v1(&x, &l, None, "solve-pure").unwrap(),
        Some(StagePlanV1::ParMap {
            unordered: true,
            result_bytes: false,
            tracks_inflight_bytes: false,
            slots_cap_bytes: Some(12),
        })
    );
}

#[test]
fn pipe_stage_errors() {
    let r = registry();
    let mut p = base_pipe(false);
    p.chain.push(stage(par_map(2, false), "/a"));
    p.chain.push(stage(par_map(2, false), "/b"));
    let l = limits(&p);
    let e = plan_pipe_stages_v1(&p, &l, Some(&r), "solve-pure").unwrap_err();
    assert_eq!(e.message, "std.stream.pipe_v1 supports at most one par_map stream stage");

    let mut p = base_pipe(false);
    p.chain.push(stage(par_map(2, true), "/a"));
    let e = plan_pipe_stages_v1(&p, &l, Some(&r), "solve-pure").unwrap_err();
    assert_eq!(e.message, "X07E_PIPE_NDET_NOT_ALLOWED: unordered par_map stages require allow_nondet_v1=1");

    let mut p = base_pipe(true);
    p.chain.push(stage(par_map(2, true), "/a"));
    assert!(matches!(plan_pipe_stages_v1(&p, &l, Some(&r), "solve-pure").unwrap(), PipeStagesOutcomeV1::Planned(v) if v.len() == 1));

    let mut p = base_pipe(true);
    p.chain.push(stage(par_map(i32::MAX / 2, false), "/a"));
    let e = plan_pipe_stages_v1(&p, &l, Some(&r), "solve-pure").unwrap_err();
    assert_eq!(e.message, "par_map_stream cap overflow");

    let mut p = base_pipe(false);
    p.chain.push(stage(plugin_v1("app.unknown"), "/u"));
    let e = plan_pipe_stages_v1(&p, &l, Some(&r), "solve-pure").unwrap_err();
    assert_eq!((e.kind, e.message.as_str()), (CompileErrorKind::Internal, "internal error: stream plugin stage not resolved"));
}

#[test]
fn invalid_json_cfg_comes_before_later_errors() {
    let r = registry();
    let mut p = base_pipe(false);
    let l = PipeLimitsV1 { max_in_bytes: -5, ..limits(&p) };
    p.chain.push(stage(
        PipeXfV1::JsonCanonStreamV1 {
            cfg: JsonCanonStreamCfgV1 {
                max_depth: 0,
                max_total_json_bytes: 0,
                max_object_members: 0,
                max_object_total_bytes: 0,
                emit_chunk_max_bytes: 0,
            },
        },
        "/j",
    ));
    p.chain.push(stage(plugin_v1("app.unknown"), "/u"));
    assert_eq!(plan_pipe_stages_v1(&p, &l, Some(&r), "solve-pure").unwrap(), PipeStagesOutcomeV1::CfgInvalid);
}

#[test]
fn resolve_sets_plugin_brands() {
    let r = registry();
    let mut p = base_pipe(false);
    p.chain.push(stage(PipeXfV1::Take { n_param: 0 }, "/t"));
    p.chain.push(stage(plugin_v1("app.upper"), "/u"));
    assert!(pipe_uses_stream_plugins(&p));
    resolve_stream_plugins_v1(&mut p, Some(&r), "solve-pure").unwrap();
    assert_eq!(p.chain[0].in_item_brand, None);
    assert_eq!(p.chain[1].in_item_brand, Some(PipeItemBrandInV1::Brand("app.text".to_string())));
    assert_eq!(p.chain[1].out_item_brand, Some(PipeItemBrandOutV1::Brand("app.upper".to_string())));
    assert_eq!(p.chain[1].ptr, "/u");
    let l = limits(&p);
    match plan_pipe_stages_v1(&p, &l, Some(&r), "solve-pure").unwrap() {
        PipeStagesOutcomeV1::Planned(v) => assert_eq!(
            v,
            vec![
                StagePlanV1::Take { n_param: 0 },
                StagePlanV1::Plugin {
                    plugin_at: 3,
                    cfg: PluginCfgV1::FromParam(1),
                    strict_cfg_canon: 1,
                    err_map: PluginErrMapV1::Generic,
                },
            ]
        ),
        other => panic!("unexpected {other:?}"),
    }
}

#[test]
fn resolve_errors_leave_pipe_unchanged() {
    let r = registry();
    let mut p = base_pipe(false);
    p.chain.push(stage(PipeXfV1::Take { n_param: 0 }, "/t"));
    assert!(!pipe_uses_stream_plugins(&p));
    assert!(resolve_stream_plugins_v1(&mut p, None, "solve-pure").is_ok());
    p.chain.push(stage(plugin_v1("app.upper"), "/u"));
    p.chain.push(stage(plugin_v1("app.os_only"), "/o"));
    let e = resolve_stream_plugins_v1(&mut p, None, "solve-pure").unwrap_err();
    assert_eq!(e.message, "E_PIPE_PLUGIN_NEEDS_ARCH_ROOT: std.stream.xf.plugin_v1 requires compile_options.arch_root");
    let e = resolve_stream_plugins_v1(&mut p, Some(&r), "solve-pure").unwrap_err();
    assert_eq!(e.kind, CompileErrorKind::Unsupported);
    assert_eq!(
        e.message,
        "E_PIPE_PLUGIN_WORLD_VIOLATION: OS-only stream plugin_id \"app.os_only\" is not allowed in solve worlds (ptr=/o)"
    );
    assert_eq!(p.chain[1].in_item_brand, None);
    assert_eq!(p.chain[1].out_item_brand, None);
}

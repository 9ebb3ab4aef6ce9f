use x07c::ast::Expr;
use x07c::compile::CompileErrorKind;
use x07c::stream_pipe::{
    expect_i32, parse_cfg_v1, parse_chain_v1, parse_kv_fields, parse_pipe_v1, parse_sink_v1, parse_src_v1, parse_xf_v1,
    pipe_limits_v1, sink_shape_v1, validate_pipe_world_caps, DeframeOnTruncatedV1, PipeLimitsOutcomeV1, SinkBaseV1, NetOnEofV1, NetOnTimeoutV1, NetSinkOnFinishV1, PipeItemBrandInV1,
    PipeItemBrandOutV1, PipeParam, PipeSinkV1, PipeSrcV1, PipeXfV1,
};
use x07c::types::Ty;

fn ident(name: &str) -> Expr {
    Expr::Ident { name: name.to_string(), ptr: String::new() }
}

fn int_lit(value: i32) -> Expr {
    Expr::Int { value, ptr: String::new() }
}

fn list(items: Vec<Expr>) -> Expr {
    Expr::List { items, ptr: String::new() }
}

fn at(items: Vec<Expr>, ptr: &str) -> Expr {
    Expr::List { items, ptr: ptr.to_string() }
}

fn kv(key: &str, value: Expr) -> Expr {
    list(vec![ident(key), value])
}

fn wrap(e: Expr) -> Expr {
    list(vec![ident("std.stream.expr_v1"), e])
}

fn fn_ref(name: &str) -> Expr {
    list(vec![ident("std.stream.fn_v1"), ident(name)])
}

fn bytes_lit(text: &str) -> Expr {
    list(vec![ident("bytes.lit"), ident(text)])
}

fn cfg(extra: Vec<Expr>) -> Expr {
    let mut items = vec![
        ident("std.stream.cfg_v1"),
        kv("chunk_max_bytes", int_lit(64)),
        kv("bufread_cap_bytes", int_lit(128)),
        kv("max_in_bytes", int_lit(1000)),
        kv("max_out_bytes", int_lit(2000)),
        kv("max_items", int_lit(10)),
    ];
    items.extend(extra);
    list(items)
}

fn err_message<T: std::fmt::Debug>(r: Result<T, x07c::compile::CompilerError>) -> String {
    let e = r.unwrap_err();
    assert_eq!(e.kind, CompileErrorKind::Typing);
    e.message
}

#[test]
fn cfg_defaults_and_overrides() {
    let c = parse_cfg_v1(&cfg(Vec::new())).unwrap();
    assert_eq!(
        (c.chunk_max_bytes, c.bufread_cap_bytes, c.max_in_bytes, c.max_out_bytes, c.max_items),
        (64, 128, 1000, 2000, 10)
    );
    assert_eq!((c.allow_nondet_v1, c.typecheck_item_brands_v1, c.auto_require_brand_v1), (0, 1, 0));
    assert_eq!(c.verify_produced_brands_v1, 0);
    assert_eq!(c.max_steps, None);
    assert_eq!(c.brand_registry_ref_v1, None);
    let c = parse_cfg_v1(&cfg(vec![
        kv("max_steps", int_lit(5)),
        kv("allow_nondet_v1", int_lit(1)),
        kv("typecheck_item_brands_v1", int_lit(0)),
        kv("brand_registry_ref_v1", bytes_lit("app.brands")),
        kv("max_items", int_lit(3)),
    ]))
    .unwrap();
    assert_eq!(c.max_steps, Some(5));
    assert_eq!((c.allow_nondet_v1, c.typecheck_item_brands_v1), (1, 0));
    assert_eq!(c.brand_registry_ref_v1, Some("app.brands".to_string()));
    assert_eq!(c.max_items, 3);
}

#[test]
fn cfg_errors() {
    assert_eq!(err_message(parse_cfg_v1(&int_lit(1))), "std.stream.cfg_v1 must be a list");
    assert_eq!(err_message(parse_cfg_v1(&list(vec![ident("x")]))), "pipe cfg must be std.stream.cfg_v1");
    assert_eq!(
        err_message(parse_cfg_v1(&list(vec![ident("std.stream.cfg_v1")]))),
        "cfg missing chunk_max_bytes"
    );
    assert_eq!(
        err_message(parse_cfg_v1(&list(vec![ident("std.stream.cfg_v1"), kv("chunk_max_bytes", int_lit(1))]))),
        "cfg missing bufread_cap_bytes"
    );
    assert_eq!(err_message(parse_cfg_v1(&cfg(vec![kv("bogus", int_lit(1))]))), "unknown cfg field: bogus");
    assert_eq!(err_message(parse_cfg_v1(&cfg(vec![int_lit(1)]))), "cfg field must be a pair");
    assert_eq!(err_message(parse_cfg_v1(&cfg(vec![list(vec![int_lit(1), int_lit(2)])]))), "cfg key must be an identifier");
    assert_eq!(
        err_message(parse_cfg_v1(&cfg(vec![kv("max_steps", ident("x"))]))),
        "max_steps must be an integer"
    );
    assert_eq!(
        err_message(parse_cfg_v1(&cfg(vec![kv("allow_nondet_v1", int_lit(2))]))),
        "allow_nondet_v1 must be 0 or 1"
    );
    assert_eq!(
        err_message(parse_cfg_v1(&cfg(vec![kv("brand_registry_ref_v1", ident("x"))]))),
        "brand_registry_ref_v1 must be bytes"
    );
    assert_eq!(
        err_message(parse_cfg_v1(&cfg(vec![kv("brand_registry_ref_v1", bytes_lit("a..b"))]))),
        "invalid module_id (empty segment): \"a..b\""
    );
}

#[test]
fn kv_fields_reject_duplicates_and_non_pairs() {
    let items = vec![ident("h"), kv("a", int_lit(1)), kv("b", int_lit(2))];
    let fs = parse_kv_fields("h", &items, 1).unwrap();
    assert_eq!(fs.len(), 2);
    assert_eq!(fs[1].0, "b");
    let dup = vec![kv("a", int_lit(1)), kv("a", int_lit(2))];
    assert_eq!(err_message(parse_kv_fields("h", &dup, 0)), "h has duplicate field: a");
    assert_eq!(err_message(parse_kv_fields("h", &vec![int_lit(1)], 0)), "h fields must be pairs");
    assert_eq!(
        err_message(parse_kv_fields("h", &vec![list(vec![int_lit(1), int_lit(2)])], 0)),
        "h field key must be an identifier"
    );
}

#[test]
fn src_bytes_records_a_param() {
    let mut params: Vec<PipeParam> = Vec::new();
    let src = at(
        vec![ident("std.stream.src.bytes_v1"), wrap(ident("input")), kv("out_item_brand", ident("app.b"))],
        "/p/1",
    );
    let d = parse_src_v1(&src, &mut params).unwrap();
    assert_eq!(d.kind, PipeSrcV1::Bytes { bytes_param: 0 });
    assert_eq!(d.out_item_brand, Some("app.b".to_string()));
    assert_eq!(d.ptr, "/p/1");
    assert_eq!(params.len(), 1);
    assert_eq!(params[0].ty, Ty::Bytes);
    assert_eq!(params[0].expr, ident("input"));
}

#[test]
fn src_db_rows_takes_four_params() {
    let mut params: Vec<PipeParam> = vec![PipeParam { ty: Ty::I32, expr: int_lit(0) }];
    let src = list(vec![
        ident("std.stream.src.db_rows_doc_v1"),
        wrap(int_lit(1)),
        wrap(ident("sql")),
        wrap(ident("p")),
        wrap(ident("q")),
    ]);
    let d = parse_src_v1(&src, &mut params).unwrap();
    assert_eq!(
        d.kind,
        PipeSrcV1::DbRowsDoc { conn_param: 1, sql_param: 2, params_doc_param: 3, qcaps_doc_param: 4 }
    );
    let tys: Vec<Ty> = params.iter().map(|p| p.ty).collect();
    assert_eq!(tys, vec![Ty::I32, Ty::I32, Ty::BytesView, Ty::Bytes, Ty::Bytes]);
}

#[test]
fn src_net_fields_and_defaults() {
    let mut params: Vec<PipeParam> = Vec::new();
    let src = list(vec![
        ident("std.stream.src.net_tcp_read_stream_handle_v1"),
        kv("caps", wrap(ident("c"))),
        kv("stream_handle", wrap(ident("h"))),
    ]);
    let d = parse_src_v1(&src, &mut params).unwrap();
    assert_eq!(
        d.kind,
        PipeSrcV1::NetTcpReadStreamHandle {
            stream_handle_param: 0,
            caps_param: 1,
            on_timeout: NetOnTimeoutV1::Error,
            on_eof: NetOnEofV1::LeaveOpen,
        }
    );
    assert_eq!(params[0].expr, ident("h"));
    assert_eq!(params[1].expr, ident("c"));
    let mut params: Vec<PipeParam> = Vec::new();
    let src = list(vec![
        ident("std.stream.src.net_tcp_read_u32frames_v1"),
        kv("stream_handle", wrap(ident("h"))),
        kv("caps", wrap(ident("c"))),
        kv("max_frame_bytes", int_lit(9)),
        kv("on_timeout", ident("stop_if_clean")),
        kv("on_eof", ident("close")),
    ]);
    let d = parse_src_v1(&src, &mut params).unwrap();
    assert_eq!(
        d.kind,
        PipeSrcV1::NetTcpReadU32Frames {
            stream_handle_param: 0,
            caps_param: 1,
            max_frame_bytes: 9,
            allow_empty: 1,
            on_timeout: NetOnTimeoutV1::StopIfClean,
            on_eof: NetOnEofV1::Close,
        }
    );
}

#[test]
fn src_errors() {
    let mut params: Vec<PipeParam> = Vec::new();
    assert_eq!(err_message(parse_src_v1(&int_lit(1), &mut params)), "pipe src must be a list");
    assert_eq!(err_message(parse_src_v1(&list(vec![]), &mut params)), "pipe src must start with an identifier");
    assert_eq!(err_message(parse_src_v1(&list(vec![ident("x.y")]), &mut params)), "unsupported pipe src: x.y");
    assert_eq!(
        err_message(parse_src_v1(&list(vec![ident("std.stream.src.bytes_v1")]), &mut params)),
        "std.stream.src.bytes_v1 expects at least 1 argument"
    );
    assert_eq!(
        err_message(parse_src_v1(&list(vec![ident("std.stream.src.bytes_v1"), ident("x")]), &mut params)),
        "std.stream.expr_v1 wrapper must be a list"
    );
    assert_eq!(
        err_message(parse_src_v1(
            &list(vec![ident("std.stream.src.bytes_v1"), wrap(ident("x")), kv("zeta", int_lit(1)), kv("alpha", int_lit(1))]),
            &mut params
        )),
        "std.stream.src.bytes_v1 unknown field: alpha"
    );
    assert_eq!(
        err_message(parse_src_v1(
            &list(vec![ident("std.stream.src.net_tcp_read_stream_handle_v1"), kv("caps", wrap(ident("c")))]),
            &mut params
        )),
        "std.stream.src.net_tcp_read_stream_handle_v1 missing stream_handle"
    );
    assert_eq!(
        err_message(parse_src_v1(
            &list(vec![
                ident("std.stream.src.net_tcp_read_stream_handle_v1"),
                kv("stream_handle", wrap(ident("h"))),
                kv("caps", wrap(ident("c"))),
                kv("on_timeout", ident("stop_if_clean")),
            ]),
            &mut params
        )),
        "std.stream.src.net_tcp_read_stream_handle_v1 on_timeout must be \"err\" or \"stop\""
    );
}

#[test]
fn xf_variants() {
    let mut params: Vec<PipeParam> = Vec::new();
    let d = parse_xf_v1(&list(vec![ident("std.stream.xf.map_bytes_v1"), fn_ref("app.f")]), &mut params).unwrap();
    assert!(matches!(d.kind, PipeXfV1::MapBytes { ref fn_id } if fn_id == "app.f"));
    let d = parse_xf_v1(
        &list(vec![ident("std.stream.xf.take_v1"), wrap(int_lit(3)), kv("in_item_brand", ident("any"))]),
        &mut params,
    )
    .unwrap();
    assert!(matches!(d.kind, PipeXfV1::Take { n_param: 0 }));
    assert_eq!(d.in_item_brand, Some(PipeItemBrandInV1::Any));
    let d = parse_xf_v1(
        &list(vec![ident("std.stream.xf.split_lines_v1"), wrap(int_lit(10)), wrap(int_lit(100))]),
        &mut params,
    )
    .unwrap();
    assert!(matches!(d.kind, PipeXfV1::SplitLines { delim_param: 1, max_line_bytes_param: 2 }));
    let d = parse_xf_v1(
        &list(vec![ident("std.stream.xf.frame_u32le_v1"), kv("out_item_brand", ident("none"))]),
        &mut params,
    )
    .unwrap();
    assert!(matches!(d.kind, PipeXfV1::FrameU32Le));
    assert_eq!(d.out_item_brand, Some(PipeItemBrandOutV1::Unbranded));
    let d = parse_xf_v1(
        &list(vec![ident("std.stream.xf.require_brand_v1"), kv("brand", ident("app.b")), kv("max_item_bytes", int_lit(8))]),
        &mut params,
    )
    .unwrap();
    assert!(matches!(d.kind, PipeXfV1::RequireBrandV1 { ref brand_id, validator_id: None, max_item_bytes: 8 } if brand_id == "app.b"));
    let d = parse_xf_v1(
        &list(vec![ident("std.stream.xf.deframe_u32le_v1"), kv("max_frame_bytes", int_lit(4)), kv("on_truncated", ident("drop"))]),
        &mut params,
    )
    .unwrap();
    match d.kind {
        PipeXfV1::DeframeU32LeV1 { cfg } => {
            assert_eq!((cfg.max_frame_bytes, cfg.max_frames, cfg.allow_empty), (4, 0, 1));
            assert_eq!(cfg.on_truncated, DeframeOnTruncatedV1::Drop);
        }
        other => panic!("unexpected {other:?}"),
    }
    let d = parse_xf_v1(
        &list(vec![ident("std.stream.xf.json_canon_stream_v1"), kv("max_depth", int_lit(7))]),
        &mut params,
    )
    .unwrap();
    match d.kind {
        PipeXfV1::JsonCanonStreamV1 { cfg } => assert_eq!((cfg.max_depth, cfg.emit_chunk_max_bytes), (7, 0)),
        other => panic!("unexpected {other:?}"),
    }
    assert_eq!(params.len(), 3);
}

#[test]
fn xf_map_in_place_plugin_and_par_map() {
    let mut params: Vec<PipeParam> = Vec::new();
    let d = parse_xf_v1(
        &list(vec![ident("std.stream.xf.map_in_place_buf_v1"), fn_ref("app.m"), kv("scratch_cap_bytes", int_lit(16))]),
        &mut params,
    )
    .unwrap();
    assert!(matches!(d.kind, PipeXfV1::MapInPlaceBufV1 { scratch_cap_bytes: 16, clear_before_each: 1, ref fn_id } if fn_id == "app.m"));
    let d = parse_xf_v1(
        &list(vec![
            ident("std.stream.xf.plugin_v1"),
            kv("id", wrap(bytes_lit("x.plug"))),
            kv("cfg", wrap(ident("c"))),
            kv("opts_v1", list(vec![ident("opts_v1"), kv("strict_brands", int_lit(0))])),
        ]),
        &mut params,
    )
    .unwrap();
    assert!(matches!(d.kind, PipeXfV1::PluginV1 { ref plugin_id, cfg_param: 0, strict_brands: 0, strict_cfg_canon: 1 } if plugin_id == "x.plug"));
    let d = parse_xf_v1(
        &list(vec![
            ident("std.stream.xf.par_map_stream_unordered_v1"),
            kv("max_inflight", int_lit(2)),
            kv("max_item_bytes", int_lit(64)),
            kv("mapper_defasync", ident("app.worker")),
            kv("ctx", wrap(ident("ctx"))),
        ]),
        &mut params,
    )
    .unwrap();
    match d.kind {
        PipeXfV1::ParMapStreamV1 { cfg } => {
            assert_eq!((cfg.max_inflight, cfg.max_item_bytes, cfg.max_inflight_in_bytes), (2, 64, 0));
            assert_eq!(cfg.ctx_param, Some(1));
            assert_eq!(cfg.mapper_defasync, "app.worker");
            assert!(cfg.unordered && !cfg.result_bytes);
            assert_eq!(cfg.scope_cfg, list(vec![ident("task.scope.cfg_v1")]));
        }
        other => panic!("unexpected {other:?}"),
    }
    assert_eq!(params.len(), 2);
}

#[test]
fn xf_errors() {
    let mut params: Vec<PipeParam> = Vec::new();
    assert_eq!(err_message(parse_xf_v1(&list(vec![ident("nope")]), &mut params)), "unsupported pipe xf: nope");
    assert_eq!(
        err_message(parse_xf_v1(
            &list(vec![ident("std.stream.xf.map_in_place_buf_v1"), fn_ref("a.f"), fn_ref("a.g")]),
            &mut params
        )),
        "std.stream.xf.map_in_place_buf_v1 has duplicate fn"
    );
    assert_eq!(
        err_message(parse_xf_v1(&list(vec![ident("std.stream.xf.map_in_place_buf_v1"), fn_ref("a.f")]), &mut params)),
        "std.stream.xf.map_in_place_buf_v1 missing scratch_cap_bytes"
    );
    assert_eq!(
        err_message(parse_xf_v1(
            &list(vec![ident("std.stream.xf.par_map_stream_v1"), kv("max_inflight", int_lit(0))]),
            &mut params
        )),
        "std.stream.xf.par_map_stream_v1 max_inflight must be >= 1"
    );
    assert_eq!(
        err_message(parse_xf_v1(&list(vec![ident("std.stream.xf.map_bytes_v1"), fn_ref("a.f"), kv("in_item_brand", ident("a..b"))]), &mut params)),
        "invalid module_id (empty segment): \"a..b\""
    );
    assert_eq!(
        err_message(parse_xf_v1(
            &list(vec![
                ident("std.stream.xf.plugin_v1"),
                kv("id", bytes_lit("x.p")),
                kv("cfg", wrap(ident("c"))),
                kv("opts_v1", list(vec![ident("opts_v1"), kv("zz", int_lit(1))])),
            ]),
            &mut params
        )),
        "std.stream.xf.plugin_v1 opts_v1 unknown field: zz"
    );
}

#[test]
fn chain_in_order() {
    let mut params: Vec<PipeParam> = Vec::new();
    let chain = list(vec![
        ident("std.stream.chain_v1"),
        list(vec![ident("std.stream.xf.take_v1"), wrap(int_lit(1))]),
        list(vec![ident("std.stream.xf.filter_v1"), fn_ref("a.keep")]),
    ]);
    let xs = parse_chain_v1(&chain, &mut params).unwrap();
    assert_eq!(xs.len(), 2);
    assert!(matches!(xs[1].kind, PipeXfV1::Filter { .. }));
    assert_eq!(
        err_message(parse_chain_v1(&list(vec![ident("x")]), &mut params)),
        "pipe chain must be std.stream.chain_v1"
    );
}

#[test]
fn sinks() {
    let mut params: Vec<PipeParam> = Vec::new();
    let d = parse_sink_v1(&list(vec![ident("std.stream.sink.collect_bytes_v1")]), &mut params).unwrap();
    assert!(matches!(d.kind, PipeSinkV1::CollectBytes));
    let d = parse_sink_v1(
        &list(vec![ident("std.stream.sink.u32frames_v1"), list(vec![ident("std.stream.sink.world_fs_write_file_v1"), wrap(ident("p"))])]),
        &mut params,
    )
    .unwrap();
    match d.kind {
        PipeSinkV1::U32Frames { inner } => assert!(matches!(inner.kind, PipeSinkV1::WorldFsWriteFile { path_param: 0 })),
        other => panic!("unexpected {other:?}"),
    }
    let d = parse_sink_v1(
        &list(vec![
            ident("std.stream.sink.net_tcp_connect_write_v1"),
            kv("addr", wrap(ident("a"))),
            kv("caps", wrap(ident("c"))),
        ]),
        &mut params,
    )
    .unwrap();
    match d.kind {
        PipeSinkV1::NetTcpConnectWrite { addr_param, caps_param, cfg } => {
            assert_eq!((addr_param, caps_param), (1, 2));
            assert_eq!((cfg.buf_cap_bytes, cfg.flush_min_bytes), (65536, 65536));
            assert_eq!(cfg.on_finish, NetSinkOnFinishV1::Close);
        }
        other => panic!("unexpected {other:?}"),
    }
    assert_eq!(params[1].ty, Ty::Bytes);
    assert_eq!(
        err_message(parse_sink_v1(
            &list(vec![ident("std.stream.sink.null_v1"), kv("in_item_brand", ident("same"))]),
            &mut params
        )),
        "std.stream.sink.null_v1 in_item_brand must be \"any\" or a brand id"
    );
    assert_eq!(
        err_message(parse_sink_v1(
            &list(vec![
                ident("std.stream.sink.net_tcp_write_stream_handle_v1"),
                kv("stream_handle", wrap(ident("h"))),
                kv("caps", wrap(ident("c"))),
                kv("buf_cap_bytes", int_lit(8)),
                kv("flush_min_bytes", int_lit(9)),
            ]),
            &mut params
        )),
        "std.stream.sink.net_tcp_write_stream_handle_v1 flush_min_bytes must be in [1..buf_cap_bytes]"
    );
}

#[test]
fn pipe_desugars_framed_reads() {
    let pipe = list(vec![
        ident("std.stream.pipe_v1"),
        cfg(Vec::new()),
        at(
            vec![
                ident("std.stream.src.net_tcp_read_u32frames_v1"),
                kv("stream_handle", wrap(ident("h"))),
                kv("caps", wrap(ident("c"))),
                kv("max_frame_bytes", int_lit(32)),
                kv("out_item_brand", ident("app.frame")),
            ],
            "/src",
        ),
        list(vec![ident("std.stream.chain_v1"), list(vec![ident("std.stream.xf.take_v1"), wrap(int_lit(5))])]),
        list(vec![ident("std.stream.sink.world_fs_write_file_v1"), wrap(ident("path"))]),
    ]);
    let p = parse_pipe_v1(&pipe).unwrap();
    assert_eq!(
        p.src.kind,
        PipeSrcV1::NetTcpReadStreamHandle {
            stream_handle_param: 0,
            caps_param: 1,
            on_timeout: NetOnTimeoutV1::Error,
            on_eof: NetOnEofV1::LeaveOpen,
        }
    );
    assert_eq!(p.src.out_item_brand, None);
    assert_eq!(p.chain.len(), 2);
    match &p.chain[0].kind {
        PipeXfV1::DeframeU32LeV1 { cfg } => {
            assert_eq!((cfg.max_frame_bytes, cfg.max_frames, cfg.allow_empty), (32, 0, 1));
            assert_eq!(cfg.on_truncated, DeframeOnTruncatedV1::Error);
        }
        other => panic!("unexpected {other:?}"),
    }
    assert_eq!(p.chain[0].out_item_brand, Some(PipeItemBrandOutV1::Brand("app.frame".to_string())));
    assert_eq!(p.chain[0].ptr, "/src");
    assert!(matches!(p.chain[1].kind, PipeXfV1::Take { n_param: 2 }));
    assert!(matches!(p.sink.kind, PipeSinkV1::WorldFsWriteFile { path_param: 3 }));
    assert_eq!(p.params.len(), 4);
    assert!(validate_pipe_world_caps(&p, true, "run-os").is_ok());
    let e = validate_pipe_world_caps(&p, false, "solve-pure").unwrap_err();
    assert_eq!(e.kind, CompileErrorKind::Unsupported);
    assert_eq!(e.message, "std.stream.pipe_v1 requires an OS world (run-os, run-os-sandboxed); got solve-pure");
}

#[test]
fn pipe_errors() {
    assert_eq!(err_message(parse_pipe_v1(&int_lit(0))), "std.stream.pipe_v1 must be a list");
    assert_eq!(
        err_message(parse_pipe_v1(&list(vec![ident("std.stream.pipe_v1")]))),
        "std.stream.pipe_v1 expects 4 arguments"
    );
    let pipe = list(vec![
        ident("std.stream.pipe_v1"),
        cfg(Vec::new()),
        list(vec![ident("std.stream.src.bytes_v1"), wrap(ident("b"))]),
        list(vec![ident("std.stream.chain_v1")]),
        list(vec![ident("std.stream.sink.hash_fnv1a32_v1")]),
    ]);
    let p = parse_pipe_v1(&pipe).unwrap();
    assert!(validate_pipe_world_caps(&p, false, "solve-pure").is_ok());
}

fn limits_pipe(cfg_extra: Vec<Expr>, xfs: Vec<Expr>, sink: Expr) -> x07c::stream_pipe::PipeParsed {
    let mut chain = vec![ident("std.stream.chain_v1")];
    chain.extend(xfs);
    parse_pipe_v1(&list(vec![
        ident("std.stream.pipe_v1"),
        cfg(cfg_extra),
        list(vec![ident("std.stream.src.bytes_v1"), wrap(ident("b"))]),
        list(chain),
        sink,
    ]))
    .unwrap()
}

#[test]
fn limits_default_steps_and_emits() {
    let p = limits_pipe(Vec::new(), Vec::new(), list(vec![ident("std.stream.sink.collect_bytes_v1")]));
    match pipe_limits_v1(&p).unwrap() {
        PipeLimitsOutcomeV1::Valid(l) => {
            // ceil(1000 / 64) + 8
            assert_eq!(l.max_steps, 24);
            assert_eq!(l.max_in_bytes, 1000);
            assert!(l.emit_payload && l.emit_stats);
            assert!(!l.sink.framing_u32frames);
            assert_eq!(l.sink.base, SinkBaseV1::CollectBytes);
        }
        other => panic!("unexpected {other:?}"),
    }
}

#[test]
fn limits_json_stage_tightens_input() {
    let json = list(vec![ident("std.stream.xf.json_canon_stream_v1"), kv("max_total_json_bytes", int_lit(100))]);
    let p = limits_pipe(vec![kv("emit_stats", int_lit(0))], vec![json], list(vec![ident("std.stream.sink.null_v1")]));
    match pipe_limits_v1(&p).unwrap() {
        PipeLimitsOutcomeV1::Valid(l) => {
            assert_eq!(l.max_in_bytes, 100);
            assert_eq!(l.max_steps, 10);
            assert!(!l.emit_stats);
        }
        other => panic!("unexpected {other:?}"),
    }
    let j = || list(vec![ident("std.stream.xf.json_canon_stream_v1")]);
    let p = limits_pipe(Vec::new(), vec![j(), j()], list(vec![ident("std.stream.sink.null_v1")]));
    assert_eq!(
        err_message(pipe_limits_v1(&p)),
        "std.stream.pipe_v1 supports at most one std.stream.xf.json_canon_stream_v1"
    );
}

#[test]
fn limits_invalid_cfg_and_fs_defaults() {
    let p = limits_pipe(vec![kv("bufread_cap_bytes", int_lit(8))], Vec::new(), list(vec![ident("std.stream.sink.null_v1")]));
    assert_eq!(pipe_limits_v1(&p).unwrap(), PipeLimitsOutcomeV1::CfgInvalid);
    let fs = list(vec![ident("std.stream.sink.world_fs_write_stream_v1"), wrap(ident("path")), wrap(ident("caps"))]);
    let p = limits_pipe(Vec::new(), Vec::new(), fs);
    match pipe_limits_v1(&p).unwrap() {
        PipeLimitsOutcomeV1::Valid(l) => match l.sink.base {
            SinkBaseV1::WorldFsWriteStream { cfg, .. } => {
                assert_eq!((cfg.buf_cap_bytes, cfg.flush_min_bytes), (64, 64));
                // ceil(2000 / 64) + 4
                assert_eq!(cfg.max_flushes, 36);
            }
            other => panic!("unexpected {other:?}"),
        },
        other => panic!("unexpected {other:?}"),
    }
}

#[test]
fn nested_frames_are_refused() {
    let inner = list(vec![ident("std.stream.sink.u32frames_v1"), list(vec![ident("std.stream.sink.null_v1")])]);
    let mut params: Vec<PipeParam> = Vec::new();
    let s = parse_sink_v1(&list(vec![ident("std.stream.sink.u32frames_v1"), inner]), &mut params).unwrap();
    assert_eq!(err_message(sink_shape_v1(&s.kind)), "std.stream.sink.u32frames_v1 cannot wrap another u32frames_v1");
    let s = parse_sink_v1(&list(vec![ident("std.stream.sink.u32frames_v1"), list(vec![ident("std.stream.sink.null_v1")])]), &mut params)
        .unwrap();
    let sh = sink_shape_v1(&s.kind).unwrap();
    assert!(sh.framing_u32frames);
    assert_eq!(sh.base, SinkBaseV1::Null);
}

#[test]
fn expect_i32_reads_literals_only() {
    assert_eq!(expect_i32(&int_lit(-4), "want int").unwrap(), -4);
    let e = expect_i32(&ident("x"), "want int").unwrap_err();
    assert_eq!(e.kind, CompileErrorKind::Typing);
    assert_eq!(e.message, "want int");
}

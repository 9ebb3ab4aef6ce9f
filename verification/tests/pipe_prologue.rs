use x07c::ast::Expr;
use x07c::pipe_prelude::gen_par_map_init_v1;
use x07c::pipe_prologue::gen_pipe_prologue_v1;
use x07c::pipe_stages::{plan_pipe_stages_v1, PipeStagesOutcomeV1};
use x07c::stream_pipe::{
    parse_pipe_v1, pipe_limits_v1, ParMapStreamCfgV1, PipeLimitsOutcomeV1, PipeXfDescV1, PipeXfV1,
};
use x07c::stream_plugins::StreamPluginRegistryV1;

fn show(e: &Expr) -> String {
    match e {
        Expr::Int { value, .. } => value.to_string(),
        Expr::Ident { name, .. } => name.clone(),
        Expr::List { items, .. } => format!("({})", items.iter().map(show).collect::<Vec<_>>().join(" ")),
    }
}

fn ident(name: &str) -> Expr {
    Expr::Ident { name: name.to_string(), ptr: String::new() }
}

fn int_lit(value: i32) -> Expr {
    Expr::Int { value, ptr: String::new() }
}

fn list(items: Vec<Expr>) -> Expr {
    Expr::List { items, ptr: String::new() }
}

fn kv(key: &str, value: Expr) -> Expr {
    list(vec![ident(key), value])
}

fn par_map_cfg(max_inflight: i32, unordered: bool, in_bytes: i32) -> ParMapStreamCfgV1 {
    ParMapStreamCfgV1 {
        max_inflight,
        max_item_bytes: 100,
        max_inflight_in_bytes: in_bytes,
        max_out_item_bytes: 100,
        ctx_param: Some(1),
        mapper_defasync: "main.m".to_string(),
        scope_cfg: list(vec![ident("task.scope.cfg_v1")]),
        unordered,
        result_bytes: true,
    }
}

#[test]
fn par_map_state() {
    let v: Vec<String> = gen_par_map_init_v1(2, &par_map_cfg(3, false, 0)).unwrap().iter().map(show).collect();
    assert_eq!(
        v,
        vec![
            "(let par_map_ctx_b_2 p1)",
            "(let par_map_ctx_v_2 (bytes.view par_map_ctx_b_2))",
            "(let par_map_slots_2 (vec_u8.with_capacity 12))",
            "(set par_map_slots_2 (vec_u8.extend_zeroes par_map_slots_2 12))",
            "(let par_map_len_2 0)",
            "(let par_map_head_2 0)",
            "(let par_map_next_index_2 0)",
        ]
    );
    let u: Vec<String> = gen_par_map_init_v1(0, &par_map_cfg(2, true, 5)).unwrap().iter().map(show).collect();
    assert!(u[4].starts_with("(for pm_init_0 0 2 (begin (begin (let u32le_off (* pm_init_0 4)) (let u32le (codec.write_u32_le -1))"));
    assert_eq!(u[5], "(let par_map_lens_0 (vec_u8.with_capacity 8))");
    assert_eq!(u[7], "(let par_map_inflight_bytes_0 0)");
    assert_eq!(u[8], "(let par_map_idxs_0 (vec_u8.with_capacity 8))");
    assert_eq!(u[10], "(let par_map_len_0 0)");
    assert_eq!(u[11], "(let par_map_next_index_0 0)");
    assert_eq!(u.len(), 12);
    let e = gen_par_map_init_v1(0, &par_map_cfg(i32::MAX / 2, false, 0)).unwrap_err();
    assert_eq!(e.message, "par_map_stream cap overflow");
}

#[test]
fn prologue_orders_stage_then_sink_state() {
    let mut p = parse_pipe_v1(&list(vec![
        ident("std.stream.pipe_v1"),
        list(vec![
            ident("std.stream.cfg_v1"),
            kv("chunk_max_bytes", int_lit(64)),
            kv("bufread_cap_bytes", int_lit(128)),
            kv("max_in_bytes", int_lit(1000)),
            kv("max_out_bytes", int_lit(2000)),
            kv("max_items", int_lit(10)),
        ]),
        list(vec![ident("std.stream.src.bytes_v1"), list(vec![ident("std.stream.expr_v1"), ident("b")])]),
        list(vec![ident("std.stream.chain_v1")]),
        list(vec![ident("std.stream.sink.hash_fnv1a32_v1")]),
    ]))
    .unwrap();
    p.chain.push(PipeXfDescV1 {
        kind: PipeXfV1::Take { n_param: 0 },
        in_item_brand: None,
        out_item_brand: None,
        ptr: "/t".to_string(),
    });
    p.chain.push(PipeXfDescV1 {
        kind: PipeXfV1::ParMapStreamV1 { cfg: par_map_cfg(1, false, 0) },
        in_item_brand: None,
        out_item_brand: None,
        ptr: "/p".to_string(),
    });
    let limits = match pipe_limits_v1(&p).unwrap() {
        PipeLimitsOutcomeV1::Valid(l) => l,
        other => panic!("unexpected {other:?}"),
    };
    let reg = StreamPluginRegistryV1::new();
    let plans = match plan_pipe_stages_v1(&p, &limits, Some(&reg), "solve-pure").unwrap() {
        PipeStagesOutcomeV1::Planned(v) => v,
        other => panic!("unexpected {other:?}"),
    };
    let items: Vec<String> = gen_pipe_prologue_v1(&p, &plans, &reg, &limits).unwrap().iter().map(show).collect();
    assert_eq!(items[0], "begin");
    assert_eq!(items[5], "(let stop 0)");
    assert_eq!(items[6], "(let take_rem_0 (if (< p0 0) 0 p0))");
    assert_eq!(items[7], "(let par_map_ctx_b_1 p1)");
    assert_eq!(items[13], "(let par_map_next_index_1 0)");
    assert_eq!(items[14], "(let hash -2128831035)");
    assert_eq!(items.len(), 15);
}

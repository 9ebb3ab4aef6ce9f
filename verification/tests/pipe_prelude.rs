use x07c::ast::Expr;
use x07c::pipe_prelude::gen_pipe_prelude_v1;
use x07c::pipe_stages::{CfgWordV1, PluginCfgV1, PluginErrMapV1, StagePlanV1};
use x07c::stream_plugins::{
    resolve_plugin_spec_v1, StreamPluginLimitsV1, StreamPluginRegistryV1, StreamPluginSpecFileV1,
    StreamPluginsIndexEntryV1,
};

fn show(e: &Expr) -> String {
    match e {
        Expr::Int { value, .. } => value.to_string(),
        Expr::Ident { name, .. } => name.clone(),
        Expr::List { items, .. } => format!("({})", items.iter().map(show).collect::<Vec<_>>().join(" ")),
    }
}

fn registry(state_bytes: u32) -> StreamPluginRegistryV1 {
    let entry = StreamPluginsIndexEntryV1 {
        plugin_id: "xf.split_lines_v1".to_string(),
        plugin_spec_path: "s.json".to_string(),
        budget_profile_id: "b".to_string(),
        native_backend_id: "native".to_string(),
        abi_major: 1,
        export_symbol: "f".to_string(),
        determinism: "deterministic_v1".to_string(),
        worlds_allowed: Vec::new(),
        in_item_brand: "any".to_string(),
        out_item_brand: "none".to_string(),
        state_bytes,
        scratch_bytes: 32,
    };
    let spec = StreamPluginSpecFileV1 {
        schema_version: "x07.sp.v1".to_string(),
        plugin_id: "xf.split_lines_v1".to_string(),
        v: 1,
        native_backend_id: "native".to_string(),
        abi_major: 1,
        export_symbol: "f".to_string(),
        determinism: "deterministic_v1".to_string(),
        worlds_allowed: Vec::new(),
        in_item_brand: "any".to_string(),
        out_item_brand: "none".to_string(),
        state_bytes,
        scratch_bytes: 32,
        cfg_max_bytes: 8,
        cfg_canon_mode: "none_v1".to_string(),
        limits: StreamPluginLimitsV1 { max_out_bytes_per_step: 1, max_out_items_per_step: 1, max_out_buf_bytes: 1 },
    };
    let mut r = StreamPluginRegistryV1::new();
    r.insert_v1(resolve_plugin_spec_v1(&entry, &spec, "s.json").unwrap(), "i.json").unwrap();
    r
}

#[test]
fn prelude_counters_only() {
    let items = gen_pipe_prelude_v1(&vec![StagePlanV1::Stateless], &registry(16));
    let shown: Vec<String> = items.iter().map(show).collect();
    assert_eq!(shown, vec!["begin", "(let bytes_in 0)", "(let bytes_out 0)", "(let items_in 0)", "(let items_out 0)"]);
}

#[test]
fn prelude_stage_state_in_kind_order() {
    let plans = vec![
        StagePlanV1::Plugin {
            plugin_at: 0,
            cfg: PluginCfgV1::Words(vec![CfgWordV1::Param(3), CfgWordV1::Int(7)]),
            strict_cfg_canon: 0,
            err_map: PluginErrMapV1::SplitLinesV1,
        },
        StagePlanV1::Take { n_param: 2 },
        StagePlanV1::RequireBrand,
        StagePlanV1::MapInPlace { scratch_cap_bytes: 0 },
        StagePlanV1::MapInPlace { scratch_cap_bytes: 64 },
        StagePlanV1::Plugin { plugin_at: 0, cfg: PluginCfgV1::FromParam(5), strict_cfg_canon: 1, err_map: PluginErrMapV1::Generic },
    ];
    let items = gen_pipe_prelude_v1(&plans, &registry(u32::MAX));
    let shown: Vec<String> = items.iter().map(show).collect();
    assert_eq!(shown[5], "(let stop 0)");
    assert_eq!(shown[6], "(let req_brand_item_idx_2 0)");
    assert!(shown[7].starts_with("(return (begin (let msg (bytes.lit stream:scratch_cap_bytes_invalid))"));
    assert!(shown[7].contains("(codec.write_u32_le 1)"));
    assert_eq!(shown[8], "(let scratch_4 (scratch_u8_fixed_v1.new 64))");
    assert_eq!(shown[9], "(let take_rem_1 (if (< p2 0) 0 p2))");
    assert_eq!(shown[10], "(let xf_plugin_state_0 (__internal.bytes.alloc_aligned_v1 2147483647 16))");
    assert_eq!(shown[11], "(let xf_plugin_scratch_0 (__internal.bytes.alloc_aligned_v1 32 16))");
    assert_eq!(shown[12], "(let xf_plugin_state_5 (__internal.bytes.alloc_aligned_v1 2147483647 16))");
    assert_eq!(shown[13], "(let xf_plugin_scratch_5 (__internal.bytes.alloc_aligned_v1 32 16))");
    assert_eq!(
        shown[14],
        "(let xf_cfg_b_0 (begin (let xf_cfg_0 (vec_u8.with_capacity 8)) \
         (set xf_cfg_0 (vec_u8.extend_bytes xf_cfg_0 (codec.write_u32_le p3))) \
         (set xf_cfg_0 (vec_u8.extend_bytes xf_cfg_0 (codec.write_u32_le 7))) (vec_u8.into_bytes xf_cfg_0)))"
    );
    assert_eq!(shown.len(), 15);
}

use x07c::compile::CompileErrorKind;
use x07c::stream_pipe::{PipeItemBrandInV1, PipeItemBrandOutV1};
use x07c::stream_plugins::{
    check_schema_version_v1, resolve_plugin_spec_v1, validate_plugin_index_entry_v1, StreamPluginCfgCanonModeV1,
    StreamPluginDeterminismV1, StreamPluginLimitsV1, StreamPluginRegistryV1, StreamPluginSpecFileV1,
    StreamPluginsIndexEntryV1,
};

fn entry() -> StreamPluginsIndexEntryV1 {
    StreamPluginsIndexEntryV1 {
        plugin_id: "xf.split_lines_v1".to_string(),
        plugin_spec_path: "arch/stream/plugins/specs/xf.split_lines_v1.x07sp-plugin.json".to_string(),
        budget_profile_id: "budget.small".to_string(),
        native_backend_id: "native.stream".to_string(),
        abi_major: 1,
        export_symbol: "x07_split_lines".to_string(),
        determinism: "deterministic_v1".to_string(),
        worlds_allowed: vec!["solve-pure".to_string()],
        in_item_brand: "any".to_string(),
        out_item_brand: "none".to_string(),
        state_bytes: 16,
        scratch_bytes: 32,
    }
}

fn spec() -> StreamPluginSpecFileV1 {
    StreamPluginSpecFileV1 {
        schema_version: "x07.sp.v1".to_string(),
        plugin_id: "xf.split_lines_v1".to_string(),
        v: 1,
        native_backend_id: "native.stream".to_string(),
        abi_major: 1,
        export_symbol: "x07_split_lines".to_string(),
        determinism: "deterministic_v1".to_string(),
        worlds_allowed: vec!["solve-pure".to_string()],
        in_item_brand: "any".to_string(),
        out_item_brand: "none".to_string(),
        state_bytes: 16,
        scratch_bytes: 32,
        cfg_max_bytes: 64,
        cfg_canon_mode: "canon_json_v1".to_string(),
        limits: StreamPluginLimitsV1 { max_out_bytes_per_step: 1, max_out_items_per_step: 2, max_out_buf_bytes: 3 },
    }
}

#[test]
fn entry_identifiers_are_validated() {
    assert!(validate_plugin_index_entry_v1(&entry()).is_ok());
    let mut e = entry();
    e.export_symbol = "1bad".to_string();
    let err = validate_plugin_index_entry_v1(&e).unwrap_err();
    assert_eq!(err.kind, CompileErrorKind::Typing);
    assert_eq!(err.message, "invalid local name start (must be [A-Za-z_]): \"1bad\"");
}

#[test]
fn schema_version_mismatch_names_both() {
    assert!(check_schema_version_v1("E_PIPE_PLUGIN_SPEC_INVALID", "a.v1", "a.v1", "p.json").is_ok());
    let err = check_schema_version_v1("E_PIPE_PLUGIN_INDEX_INVALID", "a.v1", "b.v2", "p.json").unwrap_err();
    assert_eq!(err.message, "E_PIPE_PLUGIN_INDEX_INVALID: expected schema_version \"a.v1\" got \"b.v2\" in p.json");
}

#[test]
fn spec_resolves_against_entry() {
    let r = resolve_plugin_spec_v1(&entry(), &spec(), "s.json").unwrap();
    assert_eq!(r.plugin_id, "xf.split_lines_v1");
    assert_eq!(r.budget_profile_id, "budget.small");
    assert_eq!(r.determinism, StreamPluginDeterminismV1::DeterministicV1);
    assert_eq!(r.cfg.canon_mode, StreamPluginCfgCanonModeV1::CanonJsonV1);
    assert_eq!(r.cfg.max_bytes, 64);
    assert_eq!(r.in_item_brand, PipeItemBrandInV1::Any);
    assert_eq!(r.out_item_brand, PipeItemBrandOutV1::Unbranded);
    assert_eq!(r.limits.max_out_buf_bytes, 3);
    assert_eq!(r.worlds_allowed, vec!["solve-pure".to_string()]);
}

#[test]
fn spec_mismatches_and_invalid_values() {
    let mut s = spec();
    s.plugin_id = "xf.other".to_string();
    assert_eq!(
        resolve_plugin_spec_v1(&entry(), &s, "s.json").unwrap_err().message,
        "E_PIPE_PLUGIN_SPEC_MISMATCH: plugin_id mismatch: index has \"xf.split_lines_v1\" spec has \"xf.other\" (spec_path=s.json)"
    );
    let mut s = spec();
    s.abi_major = 2;
    assert_eq!(
        resolve_plugin_spec_v1(&entry(), &s, "s.json").unwrap_err().message,
        "E_PIPE_PLUGIN_SPEC_MISMATCH: abi mismatch between index and spec (plugin_id=\"xf.split_lines_v1\" spec_path=s.json)"
    );
    let mut s = spec();
    s.worlds_allowed.push("run-os".to_string());
    assert_eq!(
        resolve_plugin_spec_v1(&entry(), &s, "s.json").unwrap_err().message,
        "E_PIPE_PLUGIN_SPEC_MISMATCH: worlds_allowed mismatch between index and spec (plugin_id=\"xf.split_lines_v1\" spec_path=s.json)"
    );
    let mut s = spec();
    s.cfg_canon_mode = "weird".to_string();
    assert_eq!(
        resolve_plugin_spec_v1(&entry(), &s, "s.json").unwrap_err().message,
        "E_PIPE_PLUGIN_SPEC_INVALID: unknown cfg.canon_mode \"weird\" (plugin_id=\"xf.split_lines_v1\" spec_path=s.json)"
    );
    let mut s = spec();
    s.v = 0;
    assert_eq!(
        resolve_plugin_spec_v1(&entry(), &s, "s.json").unwrap_err().message,
        "E_PIPE_PLUGIN_SPEC_INVALID: v must be >= 1 (plugin_id=\"xf.split_lines_v1\" spec_path=s.json)"
    );
    let mut e = entry();
    e.determinism = "sometimes".to_string();
    let mut s = spec();
    s.determinism = "sometimes".to_string();
    assert_eq!(
        resolve_plugin_spec_v1(&e, &s, "s.json").unwrap_err().message,
        "E_PIPE_PLUGIN_SPEC_INVALID: unknown determinism \"sometimes\" (plugin_id=\"xf.split_lines_v1\" spec_path=s.json)"
    );
}

#[test]
fn registry_refuses_duplicate_ids() {
    let mut reg = StreamPluginRegistryV1::new();
    reg.insert_v1(resolve_plugin_spec_v1(&entry(), &spec(), "s.json").unwrap(), "index.json").unwrap();
    assert!(reg.get("xf.split_lines_v1").is_some());
    assert!(reg.get("xf.nope").is_none());
    let err = reg
        .insert_v1(resolve_plugin_spec_v1(&entry(), &spec(), "s.json").unwrap(), "index.json")
        .unwrap_err();
    assert_eq!(err.message, "E_PIPE_PLUGIN_DUPLICATE_ID: duplicate plugin_id \"xf.split_lines_v1\" in index.json");
    assert_eq!(reg.by_id.len(), 1);
}

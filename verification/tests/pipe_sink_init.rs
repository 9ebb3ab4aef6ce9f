use x07c::ast::Expr;
use x07c::pipe_sink_init::gen_sink_init_v1;
use x07c::stream_pipe::{NetSinkOnFinishV1, NetTcpWriteStreamHandleCfgV1, SinkBaseV1, WorldFsWriteStreamCfgV1};

fn show(e: &Expr) -> String {
    match e {
        Expr::Int { value, .. } => value.to_string(),
        Expr::Ident { name, .. } => name.clone(),
        Expr::List { items, .. } => format!("({})", items.iter().map(show).collect::<Vec<_>>().join(" ")),
    }
}

fn init(base: SinkBaseV1) -> Vec<String> {
    let mut items = Vec::new();
    gen_sink_init_v1(&mut items, &base, 2000);
    items.iter().map(show).collect()
}

#[test]
fn simple_sinks() {
    assert_eq!(init(SinkBaseV1::CollectBytes), vec!["(let sink_vec (vec_u8.with_capacity 2000))"]);
    assert_eq!(init(SinkBaseV1::WorldFsWriteFile { path_param: 0 }), vec!["(let sink_vec (vec_u8.with_capacity 2000))"]);
    assert_eq!(init(SinkBaseV1::HashFnv1a32), vec!["(let hash -2128831035)"]);
    assert!(init(SinkBaseV1::Null).is_empty());
}

#[test]
fn file_stream_sink_opens_its_stream() {
    let cfg = WorldFsWriteStreamCfgV1 { buf_cap_bytes: 64, flush_min_bytes: 32, max_flushes: 40 };
    let s = init(SinkBaseV1::WorldFsWriteStreamHashFnv1a32 { path_param: 1, caps_param: 2, cfg });
    assert_eq!(s[0], "(let hash -2128831035)");
    assert_eq!(s[1], "(let fs_sink_path_b p1)");
    assert_eq!(s[2], "(let fs_sink_caps_b p2)");
    assert_eq!(s[3], "(let fs_open (os.fs.stream_open_write_v1 fs_sink_path_b fs_sink_caps_b))");
    assert!(s[4].starts_with("(if (result_i32.is_ok fs_open) 0 (begin (let ec (result_i32.err_code fs_open))"));
    assert!(s[4].contains("(codec.write_u32_le 40)"));
    assert_eq!(s[5], "(let fs_sink_h (result_i32.unwrap_or fs_open -1))");
    assert_eq!(s[6], "(let fs_sink_flushes 0)");
    assert_eq!(s[7], "(let fs_sink_max_flushes 40)");
    assert_eq!(s[8], "(let fs_sink_buf (vec_u8.with_capacity 64))");
    assert_eq!(s.len(), 9);
}

#[test]
fn network_sinks_check_caps_and_limits() {
    let cfg = NetTcpWriteStreamHandleCfgV1 {
        buf_cap_bytes: 64,
        flush_min_bytes: 64,
        max_flushes: 0,
        max_write_calls: 0,
        on_finish: NetSinkOnFinishV1::Close,
    };
    let h = init(SinkBaseV1::NetTcpWriteStreamHandle { stream_handle_param: 3, caps_param: 4, cfg });
    assert_eq!(h[0], "(let net_sink_h p3)");
    assert_eq!(h[1], "(let net_sink_owned 0)");
    assert_eq!(h[2], "(let net_sink_caps_b p4)");
    assert_eq!(h[3], "(let net_sink_caps (bytes.view net_sink_caps_b))");
    assert_eq!(h[7], "(let net_sink_mw (codec.read_u32_le net_sink_caps 16))");
    // ceil(2000 / 64) + 4
    assert_eq!(h[11], "(let net_sink_max_flushes 36)");
    assert_eq!(h.len(), 14);
    let c = init(SinkBaseV1::NetTcpConnectWrite { addr_param: 0, caps_param: 1, cfg });
    assert_eq!(c[1], "(let net_sink_owned 1)");
    assert_eq!(c[2], "(let net_sink_addr (bytes.view net_sink_addr_b))");
    assert_eq!(c[10], "(let net_sink_connect_doc (std.net.tcp.connect_v1 net_sink_addr net_sink_caps))");
    assert!(c[12].contains("stream:net_connect_failed"));
    assert_eq!(c[13], "(let net_sink_h (std.net.tcp.connect_stream_handle_v1 net_sink_connect_dv))");
    assert!(c[14].contains("stream:net_connect_doc_invalid"));
    assert!(c[14].contains("(codec.write_u32_le 62)"));
    assert_eq!(c.len(), 20);
}

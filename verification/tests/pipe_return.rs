use x07c::ast::Expr;
use x07c::pipe_return::gen_return_ok;
use x07c::stream_pipe::{NetSinkOnFinishV1, NetTcpWriteStreamHandleCfgV1, SinkBaseV1, WorldFsWriteStreamCfgV1};

fn show(e: &Expr) -> String {
    match e {
        Expr::Int { value, .. } => value.to_string(),
        Expr::Ident { name, .. } => name.clone(),
        Expr::List { items, .. } => format!("({})", items.iter().map(show).collect::<Vec<_>>().join(" ")),
    }
}

#[test]
fn collect_hash_and_null_return_their_payload() {
    let c = show(&gen_return_ok(true, true, &SinkBaseV1::CollectBytes));
    assert!(c.starts_with("(return (begin (let plb (vec_u8.into_bytes sink_vec))"));
    let h = show(&gen_return_ok(true, false, &SinkBaseV1::HashFnv1a32));
    assert!(h.starts_with("(return (begin (let plb (codec.write_u32_le hash))"));
    assert!(!h.contains("bytes_in"));
    let n = show(&gen_return_ok(false, true, &SinkBaseV1::Null));
    assert!(n.starts_with("(return (begin (let plb (bytes.alloc 0))"));
    assert!(n.contains("(codec.write_u32_le items_out)"));
}

#[test]
fn file_sinks_finish_before_returning() {
    let w = show(&gen_return_ok(true, true, &SinkBaseV1::WorldFsWriteFile { path_param: 2 }));
    assert!(w.starts_with("(begin (let file_bytes (vec_u8.into_bytes sink_vec)) (let rc (os.fs.write_file p2 file_bytes)) (if (!= rc 0) (return (begin"));
    assert!(w.contains("(codec.write_u32_le 41)"));
    assert!(w.contains("(let plb (codec.write_u32_le rc))"));
    let cfg = WorldFsWriteStreamCfgV1 { buf_cap_bytes: 64, flush_min_bytes: 64, max_flushes: 3 };
    let s = show(&gen_return_ok(true, true, &SinkBaseV1::WorldFsWriteStreamHashFnv1a32 { path_param: 0, caps_param: 1, cfg }));
    assert!(s.starts_with("(begin (if (<= (vec_u8.len fs_sink_buf) 0) 0"));
    assert!(s.contains("(let cl (os.fs.stream_close_v1 fs_sink_h)) (os.fs.stream_drop_v1 fs_sink_h) (if (result_i32.is_ok cl) 0 (begin (let ec (result_i32.err_code cl))"));
    assert!(s.contains("(codec.write_u32_le 42)"));
    assert!(s.contains("(return (begin (let plb (codec.write_u32_le hash))"));
}

#[test]
fn net_sinks_flush_and_finish() {
    let cfg = NetTcpWriteStreamHandleCfgV1 {
        buf_cap_bytes: 64,
        flush_min_bytes: 8,
        max_flushes: 0,
        max_write_calls: 0,
        on_finish: NetSinkOnFinishV1::ShutdownWrite,
    };
    let s = show(&gen_return_ok(true, true, &SinkBaseV1::NetTcpWriteStreamHandle { stream_handle_param: 0, caps_param: 1, cfg }));
    assert!(s.starts_with("(begin (if (<= (vec_u8.len net_sink_buf) 0) 0"));
    assert!(s.contains("(begin (std.net.tcp.stream_shutdown_v1 net_sink_h (std.net.tcp.shutdown_write_v1)) (if (= net_sink_owned 1) (begin (std.net.tcp.stream_close_v1 net_sink_h) (std.net.tcp.stream_drop_v1 net_sink_h) 0) 0) 0)"));
    let open = NetTcpWriteStreamHandleCfgV1 { on_finish: NetSinkOnFinishV1::LeaveOpen, ..cfg };
    let s = show(&gen_return_ok(true, true, &SinkBaseV1::NetTcpConnectWrite { addr_param: 0, caps_param: 1, cfg: open }));
    assert!(s.contains("(vec_u8.with_capacity 64)) 0)) 0 (return (begin"));
}

use x07c::ast::Expr;
use x07c::pipe_net_sink::{
    emit_net_sink_init_limits_and_buffer, emit_net_sink_validate_caps, gen_net_sink_flush, gen_net_sink_push,
    gen_net_sink_return_err, gen_net_sink_write_direct,
};
use x07c::stream_pipe::{NetSinkOnFinishV1, NetTcpWriteStreamHandleCfgV1};

fn show(e: &Expr) -> String {
    match e {
        Expr::Int { value, .. } => value.to_string(),
        Expr::Ident { name, .. } => name.clone(),
        Expr::List { items, .. } => format!("({})", items.iter().map(show).collect::<Vec<_>>().join(" ")),
    }
}

fn cfg(flush_min_bytes: i32, max_flushes: i32, max_write_calls: i32) -> NetTcpWriteStreamHandleCfgV1 {
    NetTcpWriteStreamHandleCfgV1 {
        buf_cap_bytes: 128,
        flush_min_bytes,
        max_flushes,
        max_write_calls,
        on_finish: NetSinkOnFinishV1::Close,
    }
}

#[test]
fn caps_checks_are_appended() {
    let mut items = vec![Expr::Ident { name: "begin".to_string(), ptr: String::new() }];
    emit_net_sink_validate_caps(&mut items);
    assert_eq!(items.len(), 6);
    let shown: Vec<String> = items.iter().map(show).collect();
    assert!(shown[1].starts_with("(if (< (view.len net_sink_caps) 24) (return (begin"));
    assert!(shown[1].contains("stream:net_caps_invalid"));
    assert!(shown[1].contains("(codec.write_u32_le 60)"));
    assert!(shown[2].starts_with("(if (!= (codec.read_u32_le net_sink_caps 0) 1)"));
    assert!(shown[3].starts_with("(if (!= (codec.read_u32_le net_sink_caps 20) 0)"));
    assert_eq!(shown[4], "(let net_sink_mw (codec.read_u32_le net_sink_caps 16))");
    assert!(shown[5].starts_with("(if (<= net_sink_mw 0)"));
}

#[test]
fn derived_limits() {
    let mut items = Vec::new();
    emit_net_sink_init_limits_and_buffer(&mut items, 1000, cfg(64, 0, 0));
    let shown: Vec<String> = items.iter().map(show).collect();
    assert_eq!(shown[0], "(let net_sink_flushes 0)");
    assert_eq!(shown[1], "(let net_sink_write_calls 0)");
    // ceil(1000 / 64) + 4
    assert_eq!(shown[2], "(let net_sink_max_flushes 20)");
    assert_eq!(
        shown[3],
        "(let net_sink_max_write_calls (if (> 0 0) 0 (begin (let d (if (<u net_sink_mw 64) net_sink_mw 64)) \
         (+ (/ (+ 1000 (- d 1)) d) 8))))"
    );
    assert_eq!(shown[4], "(let net_sink_buf (vec_u8.with_capacity 128))");
    let mut items = Vec::new();
    emit_net_sink_init_limits_and_buffer(&mut items, 1000, cfg(0, 3, 9));
    assert_eq!(show(&items[2]), "(let net_sink_max_flushes 3)");
    assert!(show(&items[3]).starts_with("(let net_sink_max_write_calls (if (> 9 0) 9 "));
    let mut items = Vec::new();
    emit_net_sink_init_limits_and_buffer(&mut items, -100, cfg(1, 0, 0));
    assert_eq!(show(&items[2]), "(let net_sink_max_flushes 1)");
}

fn id(s: &str) -> Expr {
    Expr::Ident { name: s.to_string(), ptr: String::new() }
}

#[test]
fn return_err_closes_owned_stream() {
    assert_eq!(
        show(&gen_net_sink_return_err(id("doc"))),
        "(begin (if (= net_sink_owned 1) (begin (std.net.tcp.stream_close_v1 net_sink_h) (std.net.tcp.stream_drop_v1 net_sink_h) 0) 0) (return doc))"
    );
}

#[test]
fn write_paths_share_the_segment_loop() {
    let w = show(&gen_net_sink_write_direct(&id("d"), &id("n")));
    assert!(w.starts_with("(if (<= n 0) 0 (begin (set net_sink_flushes (+ net_sink_flushes 1)) (if (>u net_sink_flushes net_sink_max_flushes) (begin (if (= net_sink_owned 1)"));
    assert!(w.contains("(let pos 0) (let end (+ n 1)) (for _ 0 end (begin (if (>=u pos n) 0 (begin (let remain (- n pos)) (let seg_len (if (<u remain net_sink_mw) remain net_sink_mw)) (let seg (view.slice d pos seg_len)) (let doc (std.net.io.write_all_v1 net_sink_h seg net_sink_caps)) (let dv (bytes.view doc))"));
    assert!(w.contains("stream:net_write_failed"));
    assert!(w.contains("(codec.write_u32_le 64)"));
    assert!(w.contains("(codec.write_u32_le 66)"));
    assert!(w.contains("(set pos (+ pos seg_len)) 0)) 0)) (if (<u pos n)"));
    assert!(w.contains("stream:net_write_loop_overflow"));
    let f = show(&gen_net_sink_flush(cfg(16, 0, 0)));
    assert!(f.starts_with("(if (<= (vec_u8.len net_sink_buf) 0) 0 (begin (let bv (vec_u8.as_view net_sink_buf)) (let bl (vec_u8.len net_sink_buf)) (set net_sink_flushes"));
    assert!(f.contains("(view.slice bv pos seg_len)"));
    assert!(f.ends_with("(set net_sink_buf (vec_u8.with_capacity 128)) 0))"));
    let p = show(&gen_net_sink_push(&id("d"), &id("n"), cfg(16, 0, 0)));
    assert!(p.starts_with("(if (<= n 0) 0 (begin (let bl (vec_u8.len net_sink_buf)) (if (>u (+ bl n) 128) (begin (if (<= (vec_u8.len net_sink_buf) 0)"));
    assert!(p.contains("(if (>=u n 128) (if (<= n 0) 0 (begin (set net_sink_flushes"));
    assert!(p.contains("(set net_sink_buf (vec_u8.extend_bytes_range net_sink_buf d 0 n))"));
    assert!(p.contains("(if (>=u (vec_u8.len net_sink_buf) 16)"));
}

use x07c::ast::Expr;
use x07c::pipe_fs_sink::{gen_fs_sink_flush, gen_fs_sink_push, gen_fs_sink_write_direct};
use x07c::stream_pipe::WorldFsWriteStreamCfgV1;

fn show(e: &Expr) -> String {
    match e {
        Expr::Int { value, .. } => value.to_string(),
        Expr::Ident { name, .. } => name.clone(),
        Expr::List { items, .. } => format!("({})", items.iter().map(show).collect::<Vec<_>>().join(" ")),
    }
}

fn id(s: &str) -> Expr {
    Expr::Ident { name: s.to_string(), ptr: String::new() }
}

#[test]
fn write_direct_counts_flushes_and_checks_write() {
    let s = show(&gen_fs_sink_write_direct(&id("d"), false));
    assert!(s.starts_with("(begin (set fs_sink_flushes (+ fs_sink_flushes 1)) (if (>u fs_sink_flushes fs_sink_max_flushes) (begin (os.fs.stream_close_v1 fs_sink_h) (os.fs.stream_drop_v1 fs_sink_h) (let pl (vec_u8.with_capacity 12)) (set pl (vec_u8.extend_bytes pl (codec.write_u32_le 0)))"));
    assert!(s.contains("stream:fs_too_many_flushes"));
    assert!(s.contains("(codec.write_u32_le 43)"));
    assert!(s.contains("(let wr (os.fs.stream_write_all_v1 fs_sink_h d)) (if (result_i32.is_ok wr) 0 (begin (os.fs.stream_close_v1 fs_sink_h) (os.fs.stream_drop_v1 fs_sink_h) (let ec (result_i32.err_code wr))"));
    assert!(s.contains("(codec.write_u32_le 41)"));
    assert!(!s.contains("hash"));
    assert!(s.ends_with(" 0)"));
    let h = show(&gen_fs_sink_write_direct(&id("d"), true));
    assert!(h.contains("(begin (let n (view.len d)) (for i 0 n (begin (let c (view.get_u8 d i)) (set hash (^ hash c))"));
}

#[test]
fn flush_and_push_shapes() {
    let f = show(&gen_fs_sink_flush(false));
    assert!(f.starts_with("(if (<= (vec_u8.len fs_sink_buf) 0) 0 (begin (let bv (vec_u8.as_view fs_sink_buf)) (begin (set fs_sink_flushes"));
    assert!(f.ends_with("(set fs_sink_buf (vec_u8.clear fs_sink_buf)) 0))"));
    let cfg = WorldFsWriteStreamCfgV1 { buf_cap_bytes: 64, flush_min_bytes: 32, max_flushes: 9 };
    let p = show(&gen_fs_sink_push(&id("d"), &id("n"), cfg, false));
    assert!(p.starts_with("(if (<= n 0) 0 (begin (let bl (vec_u8.len fs_sink_buf)) (if (>u (+ bl n) 64) (begin (if (<= (vec_u8.len fs_sink_buf) 0)"));
    assert!(p.contains("(if (>=u n 64) (begin (set fs_sink_flushes"));
    assert!(p.contains("(set fs_sink_buf (vec_u8.extend_bytes_range fs_sink_buf d 0 n))"));
    assert!(p.contains("(if (>=u (vec_u8.len fs_sink_buf) 32) (if (<= (vec_u8.len fs_sink_buf) 0)"));
    assert!(p.ends_with(" 0) 0))"));
}

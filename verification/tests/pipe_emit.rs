use x07c::ast::Expr;
use x07c::pipe_emit::emit_item;
use x07c::stream_pipe::{SinkBaseV1, SinkShapeV1, WorldFsWriteStreamCfgV1};

fn show(e: &Expr) -> String {
    match e {
        Expr::Int { value, .. } => value.to_string(),
        Expr::Ident { name, .. } => name.clone(),
        Expr::List { items, .. } => format!("({})", items.iter().map(show).collect::<Vec<_>>().join(" ")),
    }
}

fn id(s: &str) -> Expr {
    Expr::Ident { name: s.to_string(), ptr: String::new() }
}

#[test]
fn collect_charges_budgets_then_appends() {
    let sink = SinkShapeV1 { framing_u32frames: false, base: SinkBaseV1::CollectBytes };
    let s = show(&emit_item(&id("it"), &sink, 10, 2000));
    assert!(s.starts_with("(begin (let emit_len (view.len it)) (let new_items_out (+ items_out 1)) (if (>u new_items_out 10) (return (begin"));
    assert!(s.contains("(codec.write_u32_le 4)"));
    assert!(s.contains("(set items_out new_items_out) (let new_bytes_out (+ bytes_out emit_len)) (if (>u new_bytes_out 2000) (return (begin"));
    assert!(s.contains("(codec.write_u32_le 3)"));
    assert!(s.ends_with("(set bytes_out new_bytes_out) (set sink_vec (vec_u8.extend_bytes_range sink_vec it 0 emit_len)) 0)"));
    assert!(!s.contains("hdr"));
}

#[test]
fn framed_items_carry_a_header() {
    let sink = SinkShapeV1 { framing_u32frames: true, base: SinkBaseV1::CollectBytes };
    let s = show(&emit_item(&id("it"), &sink, 10, 2000));
    assert!(s.starts_with("(begin (let emit_len (view.len it)) (if (< emit_len 0) (return (begin (let msg (bytes.lit stream:frame_too_large))"));
    assert!(s.contains("(let new_bytes_out (+ bytes_out (+ 4 emit_len)))"));
    assert!(s.contains("(let hdr (codec.write_u32_le emit_len)) (set sink_vec (vec_u8.extend_bytes sink_vec hdr)) (set sink_vec (vec_u8.extend_bytes_range sink_vec it 0 emit_len)) 0)"));
    let hash = SinkShapeV1 { framing_u32frames: true, base: SinkBaseV1::HashFnv1a32 };
    let h = show(&emit_item(&id("it"), &hash, 10, 2000));
    assert!(h.contains("(let hdr (codec.write_u32_le emit_len)) (begin (let n (view.len (bytes.view hdr)))"));
    let null = SinkShapeV1 { framing_u32frames: false, base: SinkBaseV1::Null };
    assert!(show(&emit_item(&id("it"), &null, 1, 1)).ends_with("(set bytes_out new_bytes_out) 0)"));
    let cfg = WorldFsWriteStreamCfgV1 { buf_cap_bytes: 64, flush_min_bytes: 64, max_flushes: 2 };
    let fs = SinkShapeV1 { framing_u32frames: true, base: SinkBaseV1::WorldFsWriteStream { path_param: 0, caps_param: 1, cfg } };
    let f = show(&emit_item(&id("it"), &fs, 1, 1));
    assert!(f.contains("(let hdr (codec.write_u32_le emit_len)) (if (<= 4 0) 0 (begin (let bl (vec_u8.len fs_sink_buf))"));
    assert!(f.contains("(if (<= emit_len 0) 0 (begin (let bl (vec_u8.len fs_sink_buf))"));
}

use x07c::ast::Expr;
use x07c::pipe_canon::{
    canon_map_in_place_buf, canon_pair_tail, canon_stream_descriptor_pairs, expr_to_json, pipe_descriptor_json,
    pipe_hash_hex, scrub_expr_bodies, PipeJson,
};

fn ident(name: &str) -> Expr {
    Expr::Ident { name: name.to_string(), ptr: String::new() }
}

fn int_lit(value: i32) -> Expr {
    Expr::Int { value, ptr: String::new() }
}

fn list(items: Vec<Expr>) -> Expr {
    Expr::List { items, ptr: String::new() }
}

fn s(x: &str) -> PipeJson {
    PipeJson::Str(x.to_string())
}

fn arr(items: Vec<PipeJson>) -> PipeJson {
    PipeJson::Arr(items)
}

fn func(name: &str) -> PipeJson {
    arr(vec![s("std.stream.fn_v1"), s(name)])
}

fn pair(k: &str, v: i32) -> PipeJson {
    arr(vec![s(k), PipeJson::Num(v)])
}

#[test]
fn expr_to_json_maps_each_form() {
    let e = list(vec![ident("a"), int_lit(7), list(vec![])]);
    assert_eq!(expr_to_json(&e), arr(vec![s("a"), PipeJson::Num(7), arr(vec![])]));
}

#[test]
fn scrub_blanks_expr_bodies_at_any_depth() {
    let v = arr(vec![
        s("std.stream.xf.map_bytes_v1"),
        arr(vec![s("std.stream.expr_v1"), arr(vec![s("x"), PipeJson::Num(1)])]),
        arr(vec![s("std.stream.expr_v1"), s("a"), s("b")]),
    ]);
    let want = arr(vec![
        s("std.stream.xf.map_bytes_v1"),
        arr(vec![s("std.stream.expr_v1"), PipeJson::Null]),
        arr(vec![s("std.stream.expr_v1"), s("a"), s("b")]),
    ]);
    assert_eq!(scrub_expr_bodies(&v), want);
}

#[test]
fn pair_tail_sorts_stably_by_key() {
    let items = vec![s("head"), pair("b", 1), pair("a", 2), pair("b", 0), PipeJson::Num(9)];
    let want = vec![s("head"), PipeJson::Num(9), pair("a", 2), pair("b", 1), pair("b", 0)];
    assert_eq!(canon_pair_tail(&items, 1), want);
}

#[test]
fn pair_tail_short_input_is_unchanged() {
    let items = vec![s("h"), pair("z", 1)];
    assert_eq!(canon_pair_tail(&items, 3), items);
    assert_eq!(canon_pair_tail(&items, 2), items);
}

#[test]
fn map_in_place_buf_orders_scratch_fn_clear() {
    let items = vec![
        s("std.stream.xf.map_in_place_buf_v1"),
        pair("clear_before_each", 1),
        arr(vec![s("fn"), func("main.f")]),
        pair("other", 3),
        pair("scratch_cap_bytes", 64),
        pair("scratch_cap_bytes", 65),
    ];
    let want = vec![
        s("std.stream.xf.map_in_place_buf_v1"),
        pair("scratch_cap_bytes", 64),
        func("main.f"),
        pair("clear_before_each", 1),
        pair("other", 3),
        pair("scratch_cap_bytes", 65),
    ];
    assert_eq!(canon_map_in_place_buf(&items), want);
}

#[test]
fn map_in_place_buf_second_fn_stays_in_rest() {
    let items = vec![s("std.stream.xf.map_in_place_buf_v1"), func("main.f"), func("main.g")];
    assert_eq!(
        canon_map_in_place_buf(&items),
        vec![s("std.stream.xf.map_in_place_buf_v1"), func("main.f"), func("main.g")]
    );
    assert_eq!(canon_map_in_place_buf(&vec![]), vec![]);
}

#[test]
fn descriptor_pairs_sorted_in_nested_cfg_and_fs_sink() {
    let cfg = arr(vec![s("std.stream.cfg_v1"), pair("max_steps", 1), pair("chunk_max_bytes", 2)]);
    let sink = arr(vec![
        s("std.stream.sink.world_fs_write_stream_v1"),
        s("a"),
        s("b"),
        pair("z", 1),
        pair("y", 2),
    ]);
    let other = arr(vec![s("std.stream.pipe_v1"), pair("q", 1), pair("p", 2)]);
    let v = arr(vec![s("outer"), cfg, sink, other]);
    let want = arr(vec![
        s("outer"),
        arr(vec![s("std.stream.cfg_v1"), pair("chunk_max_bytes", 2), pair("max_steps", 1)]),
        arr(vec![
            s("std.stream.sink.world_fs_write_stream_v1"),
            s("a"),
            s("b"),
            pair("y", 2),
            pair("z", 1),
        ]),
        arr(vec![s("std.stream.pipe_v1"), pair("q", 1), pair("p", 2)]),
    ]);
    assert_eq!(canon_stream_descriptor_pairs(&v), want);
}

#[test]
fn descriptor_json_ignores_field_order_and_expr_bodies() {
    let cfg = |a: Expr, b: Expr| list(vec![ident("std.stream.cfg_v1"), a, b]);
    let k = |key: &str, v: i32| list(vec![ident(key), int_lit(v)]);
    let body = |n: i32| list(vec![ident("std.stream.expr_v1"), int_lit(n)]);
    let p1 = list(vec![ident("std.stream.pipe_v1"), cfg(k("a", 1), k("b", 2)), body(1)]);
    let p2 = list(vec![ident("std.stream.pipe_v1"), cfg(k("b", 2), k("a", 1)), body(2)]);
    assert_eq!(pipe_descriptor_json(&p1), pipe_descriptor_json(&p2));
    let p3 = list(vec![ident("std.stream.pipe_v1"), cfg(k("b", 3), k("a", 1)), body(2)]);
    assert_ne!(pipe_descriptor_json(&p1), pipe_descriptor_json(&p3));
}

#[test]
fn pipe_hash_is_blake3_prefix_in_hex() {
    assert_eq!(pipe_hash_hex(b""), "af1349b9");
    assert_eq!(pipe_hash_hex(b"abc"), "6437b3ac");
}

fn to_value(v: &PipeJson) -> serde_json::Value {
    match v {
        PipeJson::Null => serde_json::Value::Null,
        PipeJson::Num(n) => serde_json::Value::from(*n),
        PipeJson::Str(s) => serde_json::Value::String(s.clone()),
        PipeJson::Arr(items) => serde_json::Value::Array(items.iter().map(to_value).collect()),
    }
}

#[test]
fn equivalent_pipes_hash_alike() {
    let k = |key: &str, v: i32| list(vec![ident(key), int_lit(v)]);
    let p1 = list(vec![ident("std.stream.pipe_v1"), list(vec![ident("std.stream.cfg_v1"), k("a", 1), k("b", 2)])]);
    let p2 = list(vec![ident("std.stream.pipe_v1"), list(vec![ident("std.stream.cfg_v1"), k("b", 2), k("a", 1)])]);
    let h = |p: &Expr| pipe_hash_hex(&serde_json::to_vec(&to_value(&pipe_descriptor_json(p))).unwrap());
    assert_eq!(h(&p1), h(&p2));
    assert_eq!(h(&p1).len(), 8);
    let bytes = serde_json::to_vec(&to_value(&pipe_descriptor_json(&p1))).unwrap();
    assert_eq!(
        String::from_utf8(bytes).unwrap(),
        r#"["std.stream.pipe_v1",["std.stream.cfg_v1",["a",1],["b",2]]]"#
    );
}

use x07c::ast::Expr;
use x07c::pipe_docs::{
    apply_out_item_brand, apply_src_out_item_brand, budget_check_in, err_doc_const, err_doc_with_payload, expr_ident,
    expr_int, expr_list, extend_u32, gen_fnv1a_update, let_i32, ok_doc, param_ident, set_add_i32, vec_u8_read_u32_le,
    vec_u8_set_u32_le,
};
use x07c::stream_pipe::PipeItemBrandOutV1;

fn id(s: &str) -> Expr {
    Expr::Ident { name: s.to_string(), ptr: String::new() }
}

fn num(v: i32) -> Expr {
    Expr::Int { value: v, ptr: String::new() }
}

fn l(items: Vec<Expr>) -> Expr {
    Expr::List { items, ptr: String::new() }
}

/// The expression as S-expression text.
fn show(e: &Expr) -> String {
    match e {
        Expr::Int { value, .. } => value.to_string(),
        Expr::Ident { name, .. } => name.clone(),
        Expr::List { items, .. } => format!("({})", items.iter().map(show).collect::<Vec<_>>().join(" ")),
    }
}

#[test]
fn small_builders() {
    assert_eq!(expr_ident("x"), id("x"));
    assert_eq!(expr_int(-3), num(-3));
    assert_eq!(expr_list(vec![id("a"), num(1)]), l(vec![id("a"), num(1)]));
    assert_eq!(param_ident(12), id("p12"));
    assert_eq!(show(&let_i32("n", 5)), "(let n 5)");
    assert_eq!(show(&set_add_i32("n", num(2))), "(set n (+ n 2))");
    assert_eq!(show(&extend_u32("out", id("x"))), "(set out (vec_u8.extend_bytes out (codec.write_u32_le x)))");
    assert_eq!(show(&vec_u8_read_u32_le("v", num(4))), "(codec.read_u32_le (vec_u8.as_view v) 4)");
}

#[test]
fn set_u32_le_writes_four_bytes() {
    assert_eq!(
        show(&vec_u8_set_u32_le("v", num(8), id("x"))),
        "(begin (let u32le_off 8) (let u32le (codec.write_u32_le x)) \
         (set v (vec_u8.set v u32le_off (bytes.get_u8 u32le 0))) \
         (set v (vec_u8.set v (+ u32le_off 1) (bytes.get_u8 u32le 1))) \
         (set v (vec_u8.set v (+ u32le_off 2) (bytes.get_u8 u32le 2))) \
         (set v (vec_u8.set v (+ u32le_off 3) (bytes.get_u8 u32le 3))) 0)"
    );
}

#[test]
fn error_document() {
    assert_eq!(
        show(&err_doc_const(7, "stream:cfg_invalid")),
        "(begin (let msg (bytes.lit stream:cfg_invalid)) (let msgv (bytes.view msg)) (let msg_len (view.len msgv)) \
         (let plb (bytes.alloc 0)) (let plv (bytes.view plb)) (let pl_len (view.len plv)) \
         (let out (vec_u8.with_capacity (+ (+ 13 msg_len) pl_len))) (set out (vec_u8.push out 0)) \
         (set out (vec_u8.extend_bytes out (codec.write_u32_le 7))) \
         (set out (vec_u8.extend_bytes out (codec.write_u32_le msg_len))) (set out (vec_u8.extend_bytes out msgv)) \
         (set out (vec_u8.extend_bytes out (codec.write_u32_le pl_len))) (set out (vec_u8.extend_bytes out plv)) \
         (vec_u8.into_bytes out))"
    );
    let e = err_doc_with_payload(id("code"), "m", id("pay"));
    assert!(show(&e).contains("(let plb pay)"));
    assert!(show(&e).contains("(codec.write_u32_le code)"));
}

#[test]
fn ok_document_respects_flags() {
    assert_eq!(
        show(&ok_doc(true, true, id("pay"))),
        "(begin (let plb pay) (let plv (bytes.view plb)) (let pl_len (view.len plv)) \
         (let out (vec_u8.with_capacity (+ 21 pl_len))) (set out (vec_u8.push out 1)) \
         (set out (vec_u8.extend_bytes out (codec.write_u32_le bytes_in))) \
         (set out (vec_u8.extend_bytes out (codec.write_u32_le bytes_out))) \
         (set out (vec_u8.extend_bytes out (codec.write_u32_le items_in))) \
         (set out (vec_u8.extend_bytes out (codec.write_u32_le items_out))) \
         (set out (vec_u8.extend_bytes out (codec.write_u32_le pl_len))) (set out (vec_u8.extend_bytes out plv)) \
         (vec_u8.into_bytes out))"
    );
    let quiet = show(&ok_doc(false, false, id("pay")));
    assert!(quiet.contains("(let plb (bytes.alloc 0))"));
    assert!(quiet.contains("(codec.write_u32_le 0)"));
    assert!(!quiet.contains("bytes_in"));
}

#[test]
fn brand_markers() {
    assert_eq!(show(&apply_src_out_item_brand(&None, id("x"))), "x");
    assert_eq!(
        show(&apply_src_out_item_brand(&Some("app.b".to_string()), id("x"))),
        "(__internal.brand.assume_view_v1 app.b x)"
    );
    assert_eq!(show(&apply_out_item_brand(&None, id("x"))), "x");
    assert_eq!(show(&apply_out_item_brand(&Some(PipeItemBrandOutV1::Same), id("x"))), "x");
    assert_eq!(show(&apply_out_item_brand(&Some(PipeItemBrandOutV1::Unbranded), id("x"))), "(std.brand.erase_view_v1 x)");
    assert_eq!(
        show(&apply_out_item_brand(&Some(PipeItemBrandOutV1::Brand("app.c".to_string())), id("x"))),
        "(__internal.brand.assume_view_v1 app.c x)"
    );
}

#[test]
fn budget_and_hash_fragments() {
    let b = show(&budget_check_in(1000));
    assert!(b.starts_with("(if (>u bytes_in 1000) (return (begin (let msg (bytes.lit stream:budget_in_bytes))"));
    assert!(b.contains("(codec.write_u32_le 2)"));
    assert!(b.ends_with(" 0)"));
    assert_eq!(
        show(&gen_fnv1a_update(&id("v"), "hash")),
        "(begin (let n (view.len v)) (for i 0 n (begin (let c (view.get_u8 v i)) (set hash (^ hash c)) \
         (set hash (* hash 16777619)) 0)) 0)"
    );
}

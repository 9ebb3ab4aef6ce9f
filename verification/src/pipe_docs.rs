//! The x07AST fragments every pipe helper is built from, and the result
//! documents it returns: an ok document `[1][bytes_in][bytes_out]
//! [items_in][items_out][payload_len][payload]` and an error document
//! `[0][code][msg_len][msg][payload_len][payload]`, with little-endian
//! 32-bit integers.

use vstd::prelude::*;
use crate::ast::{lemma_view_exprs, view_exprs, Expr, ExprV};
use crate::stream_pipe::{opt_out_view, BrandOutV, PipeItemBrandOutV1};
use crate::text::{concat_str, dec, u64_to_dec};

verus! {

pub open spec fn id_v(name: Seq<char>) -> ExprV {
    ExprV::Ident(name, Seq::empty())
}

pub open spec fn int_v(value: i32) -> ExprV {
    ExprV::Int(value, Seq::empty())
}

pub open spec fn list_v(items: Seq<ExprV>) -> ExprV {
    ExprV::List(items, Seq::empty())
}

/// An identifier.
pub fn expr_ident(name: &str) -> (r: Expr)
    ensures
        r@ == id_v(name@),
{
    Expr::Ident { name: name.to_string(), ptr: String::new() }
}

/// An integer literal.
pub fn expr_int(value: i32) -> (r: Expr)
    ensures
        r@ == int_v(value),
{
    Expr::Int { value, ptr: String::new() }
}

/// A list of the given items.
pub fn expr_list(items: Vec<Expr>) -> (r: Expr)
    ensures
        r@ == list_v(view_exprs(items@)),
{
    Expr::List { items, ptr: String::new() }
}

pub(crate) fn push_item(v: &mut Vec<Expr>, e: Expr)
    ensures
        view_exprs(final(v)@) == view_exprs(old(v)@).push(e@),
{
    let ghost before = v@;
    v.push(e);
    proof {
        lemma_view_exprs(before);
        lemma_view_exprs(v@);
        assert(view_exprs(v@) =~= view_exprs(before).push(e@));
    }
}

pub(crate) fn l2(a: Expr, b: Expr) -> (r: Expr)
    ensures
        r@ == list_v(seq![a@, b@]),
{
    let mut v: Vec<Expr> = Vec::new();
    assert(view_exprs(v@) =~= Seq::<ExprV>::empty());
    push_item(&mut v, a);
    push_item(&mut v, b);
    assert(view_exprs(v@) =~= seq![a@, b@]);
    expr_list(v)
}

pub(crate) fn l3(a: Expr, b: Expr, c: Expr) -> (r: Expr)
    ensures
        r@ == list_v(seq![a@, b@, c@]),
{
    let mut v: Vec<Expr> = Vec::new();
    assert(view_exprs(v@) =~= Seq::<ExprV>::empty());
    push_item(&mut v, a);
    push_item(&mut v, b);
    push_item(&mut v, c);
    assert(view_exprs(v@) =~= seq![a@, b@, c@]);
    expr_list(v)
}

pub(crate) fn l4(a: Expr, b: Expr, c: Expr, d: Expr) -> (r: Expr)
    ensures
        r@ == list_v(seq![a@, b@, c@, d@]),
{
    let mut v: Vec<Expr> = Vec::new();
    assert(view_exprs(v@) =~= Seq::<ExprV>::empty());
    push_item(&mut v, a);
    push_item(&mut v, b);
    push_item(&mut v, c);
    push_item(&mut v, d);
    assert(view_exprs(v@) =~= seq![a@, b@, c@, d@]);
    expr_list(v)
}

/// `(set out (vec_u8.extend_bytes out (codec.write_u32_le x)))`.
pub open spec fn extend_u32_v(out: Seq<char>, x: ExprV) -> ExprV {
    list_v(
        seq![
            id_v("set"@),
            id_v(out),
            list_v(seq![id_v("vec_u8.extend_bytes"@), id_v(out), list_v(seq![id_v("codec.write_u32_le"@), x])]),
        ],
    )
}

/// Appends `x` to the byte vector `out` as a little-endian `u32`.
pub fn extend_u32(out: &str, x: Expr) -> (r: Expr)
    ensures
        r@ == extend_u32_v(out@, x@),
{
    l3(
        expr_ident("set"),
        expr_ident(out),
        l3(expr_ident("vec_u8.extend_bytes"), expr_ident(out), l2(expr_ident("codec.write_u32_le"), x)),
    )
}

/// `(codec.read_u32_le (vec_u8.as_view vec) off)`.
pub open spec fn read_u32_le_v(vec_name: Seq<char>, off: ExprV) -> ExprV {
    list_v(seq![id_v("codec.read_u32_le"@), list_v(seq![id_v("vec_u8.as_view"@), id_v(vec_name)]), off])
}

/// Reads the little-endian `u32` at `off` of the byte vector `vec_name`.
pub fn vec_u8_read_u32_le(vec_name: &str, off: Expr) -> (r: Expr)
    ensures
        r@ == read_u32_le_v(vec_name@, off@),
{
    l3(expr_ident("codec.read_u32_le"), l2(expr_ident("vec_u8.as_view"), expr_ident(vec_name)), off)
}

/// `(set vec (vec_u8.set vec at (bytes.get_u8 u32le k)))`, with `at` the
/// offset plus `k`.
pub open spec fn set_byte_v(vec_name: Seq<char>, at: ExprV, k: i32) -> ExprV {
    list_v(
        seq![
            id_v("set"@),
            id_v(vec_name),
            list_v(
                seq![
                    id_v("vec_u8.set"@),
                    id_v(vec_name),
                    at,
                    list_v(seq![id_v("bytes.get_u8"@), id_v("u32le"@), int_v(k)]),
                ],
            ),
        ],
    )
}

pub open spec fn off_plus_v(k: i32) -> ExprV {
    list_v(seq![id_v("+"@), id_v("u32le_off"@), int_v(k)])
}

/// Writes `value` as a little-endian `u32` at `off` of the byte vector
/// `vec_name`, byte by byte, and evaluates to 0.
pub open spec fn set_u32_le_v(vec_name: Seq<char>, off: ExprV, value: ExprV) -> ExprV {
    list_v(
        seq![
            id_v("begin"@),
            list_v(seq![id_v("let"@), id_v("u32le_off"@), off]),
            list_v(seq![id_v("let"@), id_v("u32le"@), list_v(seq![id_v("codec.write_u32_le"@), value])]),
            set_byte_v(vec_name, id_v("u32le_off"@), 0),
            set_byte_v(vec_name, off_plus_v(1), 1),
            set_byte_v(vec_name, off_plus_v(2), 2),
            set_byte_v(vec_name, off_plus_v(3), 3),
            int_v(0),
        ],
    )
}

fn set_byte(vec_name: &str, at: Expr, k: i32) -> (r: Expr)
    ensures
        r@ == set_byte_v(vec_name@, at@, k),
{
    l3(
        expr_ident("set"),
        expr_ident(vec_name),
        l4(
            expr_ident("vec_u8.set"),
            expr_ident(vec_name),
            at,
            l3(expr_ident("bytes.get_u8"), expr_ident("u32le"), expr_int(k)),
        ),
    )
}

fn off_plus(k: i32) -> (r: Expr)
    ensures
        r@ == off_plus_v(k),
{
    l3(expr_ident("+"), expr_ident("u32le_off"), expr_int(k))
}

pub fn vec_u8_set_u32_le(vec_name: &str, off: Expr, value: Expr) -> (r: Expr)
    ensures
        r@ == set_u32_le_v(vec_name@, off@, value@),
{
    let mut v: Vec<Expr> = Vec::new();
    assert(view_exprs(v@) =~= Seq::<ExprV>::empty());
    let a = expr_ident("begin");
    let b = l3(expr_ident("let"), expr_ident("u32le_off"), off);
    let c = l3(expr_ident("let"), expr_ident("u32le"), l2(expr_ident("codec.write_u32_le"), value));
    let d = set_byte(vec_name, expr_ident("u32le_off"), 0);
    let e = set_byte(vec_name, off_plus(1), 1);
    let f = set_byte(vec_name, off_plus(2), 2);
    let g = set_byte(vec_name, off_plus(3), 3);
    let h = expr_int(0);
    let ghost want = seq![a@, b@, c@, d@, e@, f@, g@, h@];
    push_item(&mut v, a);
    push_item(&mut v, b);
    push_item(&mut v, c);
    push_item(&mut v, d);
    push_item(&mut v, e);
    push_item(&mut v, f);
    push_item(&mut v, g);
    push_item(&mut v, h);
    assert(view_exprs(v@) =~= want);
    expr_list(v)
}

/// The pipe parameter `idx`, bound as `p<idx>` in the helper.
pub fn param_ident(idx: usize) -> (r: Expr)
    ensures
        r@ == id_v("p"@ + dec(idx as nat)),
{
    let s = concat_str("p", u64_to_dec(idx as u64).as_str());
    Expr::Ident { name: s, ptr: String::new() }
}

/// `(let name value)`.
pub fn let_i32(name: &str, value: i32) -> (r: Expr)
    ensures
        r@ == list_v(seq![id_v("let"@), id_v(name@), int_v(value)]),
{
    l3(expr_ident("let"), expr_ident(name), expr_int(value))
}

/// `(set name (+ name delta))`.
pub fn set_add_i32(name: &str, delta: Expr) -> (r: Expr)
    ensures
        r@ == list_v(seq![id_v("set"@), id_v(name@), list_v(seq![id_v("+"@), id_v(name@), delta@])]),
{
    l3(expr_ident("set"), expr_ident(name), l3(expr_ident("+"), expr_ident(name), delta))
}

pub open spec fn let_v(name: Seq<char>, value: ExprV) -> ExprV {
    list_v(seq![id_v("let"@), id_v(name), value])
}

pub open spec fn call1_v(f: Seq<char>, a: Seq<char>) -> ExprV {
    list_v(seq![id_v(f), id_v(a)])
}

pub open spec fn set_call_v(out: Seq<char>, f: Seq<char>, arg: ExprV) -> ExprV {
    list_v(seq![id_v("set"@), id_v(out), list_v(seq![id_v(f), id_v(out), arg])])
}

/// An empty payload: `(bytes.alloc 0)`.
pub open spec fn empty_payload_v() -> ExprV {
    list_v(seq![id_v("bytes.alloc"@), int_v(0)])
}

/// The error document with error code `code`, message `msg` and `payload`.
pub open spec fn err_doc_v(code: ExprV, msg: Seq<char>, payload: ExprV) -> ExprV {
    list_v(
        seq![
            id_v("begin"@),
            let_v("msg"@, list_v(seq![id_v("bytes.lit"@), id_v(msg)])),
            let_v("msgv"@, call1_v("bytes.view"@, "msg"@)),
            let_v("msg_len"@, call1_v("view.len"@, "msgv"@)),
            let_v("plb"@, payload),
            let_v("plv"@, call1_v("bytes.view"@, "plb"@)),
            let_v("pl_len"@, call1_v("view.len"@, "plv"@)),
            let_v(
                "out"@,
                list_v(
                    seq![
                        id_v("vec_u8.with_capacity"@),
                        list_v(
                            seq![id_v("+"@), list_v(seq![id_v("+"@), int_v(13), id_v("msg_len"@)]), id_v("pl_len"@)],
                        ),
                    ],
                ),
            ),
            set_call_v("out"@, "vec_u8.push"@, int_v(0)),
            set_call_v("out"@, "vec_u8.extend_bytes"@, list_v(seq![id_v("codec.write_u32_le"@), code])),
            extend_u32_v("out"@, id_v("msg_len"@)),
            set_call_v("out"@, "vec_u8.extend_bytes"@, id_v("msgv"@)),
            extend_u32_v("out"@, id_v("pl_len"@)),
            set_call_v("out"@, "vec_u8.extend_bytes"@, id_v("plv"@)),
            call1_v("vec_u8.into_bytes"@, "out"@),
        ],
    )
}

pub(crate) fn let_e(name: &str, value: Expr) -> (r: Expr)
    ensures
        r@ == let_v(name@, value@),
{
    l3(expr_ident("let"), expr_ident(name), value)
}

fn call1(f: &str, a: &str) -> (r: Expr)
    ensures
        r@ == call1_v(f@, a@),
{
    l2(expr_ident(f), expr_ident(a))
}

fn set_call(out: &str, f: &str, arg: Expr) -> (r: Expr)
    ensures
        r@ == set_call_v(out@, f@, arg@),
{
    l3(expr_ident("set"), expr_ident(out), l3(expr_ident(f), expr_ident(out), arg))
}

/// The expression that builds the error document.
pub fn err_doc_with_payload(code: Expr, msg: &str, payload: Expr) -> (r: Expr)
    ensures
        r@ == err_doc_v(code@, msg@, payload@),
{
    let i0 = expr_ident("begin");
    let i1 = let_e("msg", l2(expr_ident("bytes.lit"), expr_ident(msg)));
    let i2 = let_e("msgv", call1("bytes.view", "msg"));
    let i3 = let_e("msg_len", call1("view.len", "msgv"));
    let i4 = let_e("plb", payload);
    let i5 = let_e("plv", call1("bytes.view", "plb"));
    let i6 = let_e("pl_len", call1("view.len", "plv"));
    let i7 = let_e(
        "out",
        l2(
            expr_ident("vec_u8.with_capacity"),
            l3(expr_ident("+"), l3(expr_ident("+"), expr_int(13), expr_ident("msg_len")), expr_ident("pl_len")),
        ),
    );
    let i8 = set_call("out", "vec_u8.push", expr_int(0));
    let i9 = set_call("out", "vec_u8.extend_bytes", l2(expr_ident("codec.write_u32_le"), code));
    let i10 = extend_u32("out", expr_ident("msg_len"));
    let i11 = set_call("out", "vec_u8.extend_bytes", expr_ident("msgv"));
    let i12 = extend_u32("out", expr_ident("pl_len"));
    let i13 = set_call("out", "vec_u8.extend_bytes", expr_ident("plv"));
    let i14 = call1("vec_u8.into_bytes", "out");
    let ghost want = seq![
        i0@, i1@, i2@, i3@, i4@, i5@, i6@, i7@, i8@, i9@, i10@, i11@, i12@, i13@, i14@,
    ];
    let mut v: Vec<Expr> = Vec::new();
    assert(view_exprs(v@) =~= Seq::<ExprV>::empty());
    push_item(&mut v, i0);
    push_item(&mut v, i1);
    push_item(&mut v, i2);
    push_item(&mut v, i3);
    push_item(&mut v, i4);
    push_item(&mut v, i5);
    push_item(&mut v, i6);
    push_item(&mut v, i7);
    push_item(&mut v, i8);
    push_item(&mut v, i9);
    push_item(&mut v, i10);
    push_item(&mut v, i11);
    push_item(&mut v, i12);
    push_item(&mut v, i13);
    push_item(&mut v, i14);
    assert(view_exprs(v@) =~= want);
    expr_list(v)
}

/// The error document with constant code `code`, message `msg` and an
/// empty payload.
pub fn err_doc_const(code: i32, msg: &str) -> (r: Expr)
    ensures
        r@ == err_doc_v(int_v(code), msg@, empty_payload_v()),
{
    err_doc_with_payload(expr_int(code), msg, l2(expr_ident("bytes.alloc"), expr_int(0)))
}

/// A statistic of the ok document: the counter `var` when statistics are
/// emitted, 0 otherwise.
pub open spec fn stat_v(emit_stats: bool, var: Seq<char>) -> ExprV {
    if emit_stats {
        id_v(var)
    } else {
        int_v(0)
    }
}

/// The ok document: the counters `bytes_in`, `bytes_out`, `items_in` and
/// `items_out` (zeros without statistics) and `payload` (empty without
/// payload).
pub open spec fn ok_doc_v(emit_payload: bool, emit_stats: bool, payload: ExprV) -> ExprV {
    list_v(
        seq![
            id_v("begin"@),
            let_v(
                "plb"@,
                if emit_payload {
                    payload
                } else {
                    empty_payload_v()
                },
            ),
            let_v("plv"@, call1_v("bytes.view"@, "plb"@)),
            let_v("pl_len"@, call1_v("view.len"@, "plv"@)),
            let_v(
                "out"@,
                list_v(seq![id_v("vec_u8.with_capacity"@), list_v(seq![id_v("+"@), int_v(21), id_v("pl_len"@)])]),
            ),
            set_call_v("out"@, "vec_u8.push"@, int_v(1)),
            extend_u32_v("out"@, stat_v(emit_stats, "bytes_in"@)),
            extend_u32_v("out"@, stat_v(emit_stats, "bytes_out"@)),
            extend_u32_v("out"@, stat_v(emit_stats, "items_in"@)),
            extend_u32_v("out"@, stat_v(emit_stats, "items_out"@)),
            extend_u32_v("out"@, id_v("pl_len"@)),
            set_call_v("out"@, "vec_u8.extend_bytes"@, id_v("plv"@)),
            call1_v("vec_u8.into_bytes"@, "out"@),
        ],
    )
}

fn stat(emit_stats: bool, var: &str) -> (r: Expr)
    ensures
        r@ == stat_v(emit_stats, var@),
{
    if emit_stats {
        expr_ident(var)
    } else {
        expr_int(0)
    }
}

/// The expression that builds the ok document of a helper that emits its
/// payload and statistics as the flags say.
pub fn ok_doc(emit_payload: bool, emit_stats: bool, payload: Expr) -> (r: Expr)
    ensures
        r@ == ok_doc_v(emit_payload, emit_stats, payload@),
{
    let pl = if emit_payload {
        payload
    } else {
        l2(expr_ident("bytes.alloc"), expr_int(0))
    };
    let i0 = expr_ident("begin");
    let i1 = let_e("plb", pl);
    let i2 = let_e("plv", call1("bytes.view", "plb"));
    let i3 = let_e("pl_len", call1("view.len", "plv"));
    let i4 = let_e("out", l2(expr_ident("vec_u8.with_capacity"), l3(expr_ident("+"), expr_int(21), expr_ident("pl_len"))));
    let i5 = set_call("out", "vec_u8.push", expr_int(1));
    let i6 = extend_u32("out", stat(emit_stats, "bytes_in"));
    let i7 = extend_u32("out", stat(emit_stats, "bytes_out"));
    let i8 = extend_u32("out", stat(emit_stats, "items_in"));
    let i9 = extend_u32("out", stat(emit_stats, "items_out"));
    let i10 = extend_u32("out", expr_ident("pl_len"));
    let i11 = set_call("out", "vec_u8.extend_bytes", expr_ident("plv"));
    let i12 = call1("vec_u8.into_bytes", "out");
    let ghost want = seq![i0@, i1@, i2@, i3@, i4@, i5@, i6@, i7@, i8@, i9@, i10@, i11@, i12@];
    let mut v: Vec<Expr> = Vec::new();
    assert(view_exprs(v@) =~= Seq::<ExprV>::empty());
    push_item(&mut v, i0);
    push_item(&mut v, i1);
    push_item(&mut v, i2);
    push_item(&mut v, i3);
    push_item(&mut v, i4);
    push_item(&mut v, i5);
    push_item(&mut v, i6);
    push_item(&mut v, i7);
    push_item(&mut v, i8);
    push_item(&mut v, i9);
    push_item(&mut v, i10);
    push_item(&mut v, i11);
    push_item(&mut v, i12);
    assert(view_exprs(v@) =~= want);
    expr_list(v)
}


/// The 32-bit FNV-1a prime, as the helper's `i32` arithmetic uses it.
pub const FNV1A32_PRIME: i32 = 16777619;

/// The error code of an input budget overrun.
pub const E_BUDGET_IN_BYTES: i32 = 2;

/// A source item that carries the source's declared brand.
pub open spec fn src_brand_v(brand: Option<Seq<char>>, item: ExprV) -> ExprV {
    match brand {
        None => item,
        Some(b) => list_v(seq![id_v("__internal.brand.assume_view_v1"@), id_v(b), item]),
    }
}

/// Marks a source item with the source's output brand, if it declares one.
pub fn apply_src_out_item_brand(src_out_item_brand: &Option<String>, item: Expr) -> (r: Expr)
    ensures
        r@ == src_brand_v(
            match src_out_item_brand {
                Some(b) => Some(b@),
                None => None,
            },
            item@,
        ),
{
    match src_out_item_brand {
        None => item,
        Some(b) => l3(expr_ident("__internal.brand.assume_view_v1"), expr_ident(b.as_str()), item),
    }
}

/// A stage's output item with its declared output brand applied: kept as
/// is (`same` or undeclared), erased (`none`), or assumed to carry a brand.
pub open spec fn out_brand_v(brand: Option<BrandOutV>, item: ExprV) -> ExprV {
    match brand {
        None => item,
        Some(BrandOutV::Same) => item,
        Some(BrandOutV::Unbranded) => list_v(seq![id_v("std.brand.erase_view_v1"@), item]),
        Some(BrandOutV::Brand(b)) => list_v(seq![id_v("__internal.brand.assume_view_v1"@), id_v(b), item]),
    }
}

/// Applies a stage's declared output brand to its output item.
pub fn apply_out_item_brand(out_item_brand: &Option<PipeItemBrandOutV1>, item: Expr) -> (r: Expr)
    ensures
        r@ == out_brand_v(opt_out_view(*out_item_brand), item@),
{
    match out_item_brand {
        None => item,
        Some(PipeItemBrandOutV1::Same) => item,
        Some(PipeItemBrandOutV1::Unbranded) => l2(expr_ident("std.brand.erase_view_v1"), item),
        Some(PipeItemBrandOutV1::Brand(b)) => l3(
            expr_ident("__internal.brand.assume_view_v1"),
            expr_ident(b.as_str()),
            item,
        ),
    }
}

/// `(if (>u bytes_in max) (return <budget error>) 0)`.
pub open spec fn budget_check_in_v(max_in_bytes: i32) -> ExprV {
    list_v(
        seq![
            id_v("if"@),
            list_v(seq![id_v(">u"@), id_v("bytes_in"@), int_v(max_in_bytes)]),
            list_v(
                seq![
                    id_v("return"@),
                    err_doc_v(int_v(E_BUDGET_IN_BYTES), "stream:budget_in_bytes"@, empty_payload_v()),
                ],
            ),
            int_v(0),
        ],
    )
}

/// The input budget check: once more than `max_in_bytes` bytes were read
/// (compared unsigned), the helper returns a budget error.
pub fn budget_check_in(max_in_bytes: i32) -> (r: Expr)
    ensures
        r@ == budget_check_in_v(max_in_bytes),
{
    l4(
        expr_ident("if"),
        l3(expr_ident(">u"), expr_ident("bytes_in"), expr_int(max_in_bytes)),
        l2(expr_ident("return"), err_doc_const(E_BUDGET_IN_BYTES, "stream:budget_in_bytes")),
        expr_int(0),
    )
}

/// Folds the bytes of the view `data` into the FNV-1a hash held in
/// `hash_name`: for each byte, xor it in, then multiply by the prime.
pub open spec fn fnv1a_update_v(data: ExprV, hash_name: Seq<char>) -> ExprV {
    list_v(
        seq![
            id_v("begin"@),
            let_v("n"@, list_v(seq![id_v("view.len"@), data])),
            list_v(
                seq![
                    id_v("for"@),
                    id_v("i"@),
                    int_v(0),
                    id_v("n"@),
                    list_v(
                        seq![
                            id_v("begin"@),
                            let_v("c"@, list_v(seq![id_v("view.get_u8"@), data, id_v("i"@)])),
                            list_v(
                                seq![
                                    id_v("set"@),
                                    id_v(hash_name),
                                    list_v(seq![id_v("^"@), id_v(hash_name), id_v("c"@)]),
                                ],
                            ),
                            list_v(
                                seq![
                                    id_v("set"@),
                                    id_v(hash_name),
                                    list_v(seq![id_v("*"@), id_v(hash_name), int_v(FNV1A32_PRIME)]),
                                ],
                            ),
                            int_v(0),
                        ],
                    ),
                ],
            ),
            int_v(0),
        ],
    )
}

pub fn gen_fnv1a_update(data: &Expr, hash_name: &str) -> (r: Expr)
    ensures
        r@ == fnv1a_update_v(data@, hash_name@),
{
    let body = {
        let b0 = expr_ident("begin");
        let b1 = let_e("c", l3(expr_ident("view.get_u8"), data.copy_expr(), expr_ident("i")));
        let b2 = l3(expr_ident("set"), expr_ident(hash_name), l3(expr_ident("^"), expr_ident(hash_name), expr_ident("c")));
        let b3 = l3(
            expr_ident("set"),
            expr_ident(hash_name),
            l3(expr_ident("*"), expr_ident(hash_name), expr_int(FNV1A32_PRIME)),
        );
        let b4 = expr_int(0);
        let ghost want = seq![b0@, b1@, b2@, b3@, b4@];
        let mut v: Vec<Expr> = Vec::new();
        assert(view_exprs(v@) =~= Seq::<ExprV>::empty());
        push_item(&mut v, b0);
        push_item(&mut v, b1);
        push_item(&mut v, b2);
        push_item(&mut v, b3);
        push_item(&mut v, b4);
        assert(view_exprs(v@) =~= want);
        expr_list(v)
    };
    let for_e = {
        let f0 = expr_ident("for");
        let f1 = expr_ident("i");
        let f2 = expr_int(0);
        let f3 = expr_ident("n");
        let ghost want = seq![f0@, f1@, f2@, f3@, body@];
        let mut v: Vec<Expr> = Vec::new();
        assert(view_exprs(v@) =~= Seq::<ExprV>::empty());
        push_item(&mut v, f0);
        push_item(&mut v, f1);
        push_item(&mut v, f2);
        push_item(&mut v, f3);
        push_item(&mut v, body);
        assert(view_exprs(v@) =~= want);
        expr_list(v)
    };
    l4(expr_ident("begin"), let_e("n", l2(expr_ident("view.len"), data.copy_expr())), for_e, expr_int(0))
}

} // verus!

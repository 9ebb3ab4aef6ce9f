//! The streaming file sink of a pipe helper: items are buffered and the
//! buffer is written through the open stream `fs_sink_h` once it holds
//! `flush_min_bytes`; each write counts as a flush against the flush limit,
//! and a failed write or too many flushes closes the stream and returns an
//! error document whose payload is the error code, the flushes and the
//! bytes written.

use vstd::prelude::*;
use crate::ast::{view_exprs, Expr, ExprV};
use crate::pipe_docs::{
    err_doc_v, err_doc_with_payload, expr_ident, expr_int, expr_list, extend_u32, extend_u32_v, fnv1a_update_v,
    gen_fnv1a_update, id_v, int_v, l2, l3, l4, let_e, let_v, list_v, push_item,
};
use crate::stream_pipe::WorldFsWriteStreamCfgV1;

verus! {

pub const E_SINK_FS_WRITE_FAILED: i32 = 41;

pub const E_SINK_TOO_MANY_FLUSHES: i32 = 43;

pub open spec fn call_v(f: Seq<char>, a: Seq<char>) -> ExprV {
    list_v(seq![id_v(f), id_v(a)])
}

/// Closes and drops the stream, then returns the error document `code` /
/// `msg` whose payload holds `first`, the flush count and the bytes out.
pub open spec fn fs_fail_v(first: ExprV, code: i32, msg: Seq<char>) -> Seq<ExprV> {
    seq![
        call_v("os.fs.stream_close_v1"@, "fs_sink_h"@),
        call_v("os.fs.stream_drop_v1"@, "fs_sink_h"@),
        let_v("pl"@, list_v(seq![id_v("vec_u8.with_capacity"@), int_v(12)])),
        extend_u32_v("pl"@, first),
        extend_u32_v("pl"@, id_v("fs_sink_flushes"@)),
        extend_u32_v("pl"@, id_v("bytes_out"@)),
        list_v(seq![id_v("return"@), err_doc_v(int_v(code), msg, call_v("vec_u8.into_bytes"@, "pl"@))]),
    ]
}

/// Writes the view `data` to the stream: counts the flush and refuses one
/// over the limit, writes, returns the write error if any, and folds `data`
/// into the running hash when the sink also hashes.
pub open spec fn fs_write_direct_v(data: ExprV, hash: bool) -> ExprV {
    list_v(
        seq![
            id_v("begin"@),
            list_v(
                seq![
                    id_v("set"@),
                    id_v("fs_sink_flushes"@),
                    list_v(seq![id_v("+"@), id_v("fs_sink_flushes"@), int_v(1)]),
                ],
            ),
            list_v(
                seq![
                    id_v("if"@),
                    list_v(seq![id_v(">u"@), id_v("fs_sink_flushes"@), id_v("fs_sink_max_flushes"@)]),
                    list_v(
                        seq![id_v("begin"@)] + fs_fail_v(
                            int_v(0),
                            E_SINK_TOO_MANY_FLUSHES,
                            "stream:fs_too_many_flushes"@,
                        ),
                    ),
                    int_v(0),
                ],
            ),
            let_v("wr"@, list_v(seq![id_v("os.fs.stream_write_all_v1"@), id_v("fs_sink_h"@), data])),
            list_v(
                seq![
                    id_v("if"@),
                    call_v("result_i32.is_ok"@, "wr"@),
                    int_v(0),
                    list_v(
                        seq![
                            id_v("begin"@),
                            call_v("os.fs.stream_close_v1"@, "fs_sink_h"@),
                            call_v("os.fs.stream_drop_v1"@, "fs_sink_h"@),
                            let_v("ec"@, call_v("result_i32.err_code"@, "wr"@)),
                            let_v("pl"@, list_v(seq![id_v("vec_u8.with_capacity"@), int_v(12)])),
                            extend_u32_v("pl"@, id_v("ec"@)),
                            extend_u32_v("pl"@, id_v("fs_sink_flushes"@)),
                            extend_u32_v("pl"@, id_v("bytes_out"@)),
                            list_v(
                                seq![
                                    id_v("return"@),
                                    err_doc_v(
                                        int_v(E_SINK_FS_WRITE_FAILED),
                                        "stream:fs_write_failed"@,
                                        call_v("vec_u8.into_bytes"@, "pl"@),
                                    ),
                                ],
                            ),
                        ],
                    ),
                ],
            ),
        ] + (if hash {
            seq![fnv1a_update_v(data, "hash"@)]
        } else {
            Seq::empty()
        }) + seq![int_v(0)],
    )
}

fn call(f: &str, a: &str) -> (r: Expr)
    ensures
        r@ == call_v(f@, a@),
{
    l2(expr_ident(f), expr_ident(a))
}

fn pl_alloc() -> (r: Expr)
    ensures
        r@ == let_v("pl"@, list_v(seq![id_v("vec_u8.with_capacity"@), int_v(12)])),
{
    let_e("pl", l2(expr_ident("vec_u8.with_capacity"), expr_int(12)))
}

fn fail_return(code: i32, msg: &str) -> (r: Expr)
    ensures
        r@ == list_v(seq![id_v("return"@), err_doc_v(int_v(code), msg@, call_v("vec_u8.into_bytes"@, "pl"@))]),
{
    l2(expr_ident("return"), err_doc_with_payload(expr_int(code), msg, call("vec_u8.into_bytes", "pl")))
}

/// Appends the statements closing the stream and returning an error
/// document.
fn push_fs_fail(v: &mut Vec<Expr>, first: Expr, code: i32, msg: &str)
    ensures
        view_exprs(final(v)@) == view_exprs(old(v)@) + fs_fail_v(first@, code, msg@),
{
    let ghost before = view_exprs(v@);
    let a = call("os.fs.stream_close_v1", "fs_sink_h");
    let b = call("os.fs.stream_drop_v1", "fs_sink_h");
    let c = pl_alloc();
    let d = extend_u32("pl", first);
    let e = extend_u32("pl", expr_ident("fs_sink_flushes"));
    let f = extend_u32("pl", expr_ident("bytes_out"));
    let g = fail_return(code, msg);
    let ghost want = seq![a@, b@, c@, d@, e@, f@, g@];
    push_item(v, a);
    push_item(v, b);
    push_item(v, c);
    push_item(v, d);
    push_item(v, e);
    push_item(v, f);
    push_item(v, g);
    assert(view_exprs(v@) =~= before + want);
}

/// The code writing `data` straight to the file stream.
pub fn gen_fs_sink_write_direct(data: &Expr, hash: bool) -> (r: Expr)
    ensures
        r@ == fs_write_direct_v(data@, hash),
{
    let s0 = expr_ident("begin");
    let s1 = l3(
        expr_ident("set"),
        expr_ident("fs_sink_flushes"),
        l3(expr_ident("+"), expr_ident("fs_sink_flushes"), expr_int(1)),
    );
    let too_many = {
        let mut v: Vec<Expr> = Vec::new();
        assert(view_exprs(v@) =~= Seq::<ExprV>::empty());
        push_item(&mut v, expr_ident("begin"));
        let ghost h = view_exprs(v@);
        push_fs_fail(&mut v, expr_int(0), E_SINK_TOO_MANY_FLUSHES, "stream:fs_too_many_flushes");
        assert(h =~= seq![id_v("begin"@)]);
        expr_list(v)
    };
    let s2 = l4(
        expr_ident("if"),
        l3(expr_ident(">u"), expr_ident("fs_sink_flushes"), expr_ident("fs_sink_max_flushes")),
        too_many,
        expr_int(0),
    );
    let s3 = let_e("wr", l3(expr_ident("os.fs.stream_write_all_v1"), expr_ident("fs_sink_h"), data.copy_expr()));
    let failed = {
        let a = expr_ident("begin");
        let b = call("os.fs.stream_close_v1", "fs_sink_h");
        let c = call("os.fs.stream_drop_v1", "fs_sink_h");
        let d = let_e("ec", call("result_i32.err_code", "wr"));
        let e = pl_alloc();
        let f = extend_u32("pl", expr_ident("ec"));
        let g = extend_u32("pl", expr_ident("fs_sink_flushes"));
        let h = extend_u32("pl", expr_ident("bytes_out"));
        let i = fail_return(E_SINK_FS_WRITE_FAILED, "stream:fs_write_failed");
        let ghost want = seq![a@, b@, c@, d@, e@, f@, g@, h@, i@];
        let mut v: Vec<Expr> = Vec::new();
        assert(view_exprs(v@) =~= Seq::<ExprV>::empty());
        push_item(&mut v, a);
        push_item(&mut v, b);
        push_item(&mut v, c);
        push_item(&mut v, d);
        push_item(&mut v, e);
        push_item(&mut v, f);
        push_item(&mut v, g);
        push_item(&mut v, h);
        push_item(&mut v, i);
        assert(view_exprs(v@) =~= want);
        expr_list(v)
    };
    let s4 = l4(expr_ident("if"), call("result_i32.is_ok", "wr"), expr_int(0), failed);
    let ghost head = seq![s0@, s1@, s2@, s3@, s4@];
    let mut v: Vec<Expr> = Vec::new();
    assert(view_exprs(v@) =~= Seq::<ExprV>::empty());
    push_item(&mut v, s0);
    push_item(&mut v, s1);
    push_item(&mut v, s2);
    push_item(&mut v, s3);
    push_item(&mut v, s4);
    assert(view_exprs(v@) =~= head);
    if hash {
        push_item(&mut v, gen_fnv1a_update(data, "hash"));
    }
    push_item(&mut v, expr_int(0));
    assert(view_exprs(v@) =~= head + (if hash {
        seq![fnv1a_update_v(data@, "hash"@)]
    } else {
        Seq::empty()
    }) + seq![int_v(0)]);
    expr_list(v)
}

/// Writes out the buffer when it is not empty, then clears it.
pub open spec fn fs_flush_v(hash: bool) -> ExprV {
    list_v(
        seq![
            id_v("if"@),
            list_v(seq![id_v("<="@), call_v("vec_u8.len"@, "fs_sink_buf"@), int_v(0)]),
            int_v(0),
            list_v(
                seq![
                    id_v("begin"@),
                    let_v("bv"@, call_v("vec_u8.as_view"@, "fs_sink_buf"@)),
                    fs_write_direct_v(id_v("bv"@), hash),
                    list_v(seq![id_v("set"@), id_v("fs_sink_buf"@), call_v("vec_u8.clear"@, "fs_sink_buf"@)]),
                    int_v(0),
                ],
            ),
        ],
    )
}

/// The code flushing the file sink's buffer.
pub fn gen_fs_sink_flush(hash: bool) -> (r: Expr)
    ensures
        r@ == fs_flush_v(hash),
{
    let cond = l3(expr_ident("<="), call("vec_u8.len", "fs_sink_buf"), expr_int(0));
    let a = expr_ident("begin");
    let b = let_e("bv", call("vec_u8.as_view", "fs_sink_buf"));
    let c = gen_fs_sink_write_direct(&expr_ident("bv"), hash);
    let d = l3(expr_ident("set"), expr_ident("fs_sink_buf"), call("vec_u8.clear", "fs_sink_buf"));
    let e = expr_int(0);
    let ghost want = seq![a@, b@, c@, d@, e@];
    let mut v: Vec<Expr> = Vec::new();
    assert(view_exprs(v@) =~= Seq::<ExprV>::empty());
    push_item(&mut v, a);
    push_item(&mut v, b);
    push_item(&mut v, c);
    push_item(&mut v, d);
    push_item(&mut v, e);
    assert(view_exprs(v@) =~= want);
    l4(expr_ident("if"), cond, expr_int(0), expr_list(v))
}

pub open spec fn extend_range_v(data: ExprV, data_len: ExprV) -> ExprV {
    list_v(
        seq![
            id_v("set"@),
            id_v("fs_sink_buf"@),
            list_v(seq![id_v("vec_u8.extend_bytes_range"@), id_v("fs_sink_buf"@), data, int_v(0), data_len]),
        ],
    )
}

/// Pushes `data` (of length `data_len`) into the file sink: when it does not
/// fit in the buffer, the buffer is flushed first and data at least as long
/// as the buffer is written directly; afterwards a buffer holding at least
/// `flush_min_bytes` is flushed.
pub open spec fn fs_push_v(data: ExprV, data_len: ExprV, cfg: WorldFsWriteStreamCfgV1, hash: bool) -> ExprV {
    list_v(
        seq![
            id_v("if"@),
            list_v(seq![id_v("<="@), data_len, int_v(0)]),
            int_v(0),
            list_v(
                seq![
                    id_v("begin"@),
                    let_v("bl"@, call_v("vec_u8.len"@, "fs_sink_buf"@)),
                    list_v(
                        seq![
                            id_v("if"@),
                            list_v(
                                seq![
                                    id_v(">u"@),
                                    list_v(seq![id_v("+"@), id_v("bl"@), data_len]),
                                    int_v(cfg.buf_cap_bytes),
                                ],
                            ),
                            list_v(
                                seq![
                                    id_v("begin"@),
                                    fs_flush_v(hash),
                                    list_v(
                                        seq![
                                            id_v("if"@),
                                            list_v(seq![id_v(">=u"@), data_len, int_v(cfg.buf_cap_bytes)]),
                                            fs_write_direct_v(data, hash),
                                            extend_range_v(data, data_len),
                                        ],
                                    ),
                                    int_v(0),
                                ],
                            ),
                            extend_range_v(data, data_len),
                        ],
                    ),
                    list_v(
                        seq![
                            id_v("if"@),
                            list_v(
                                seq![id_v(">=u"@), call_v("vec_u8.len"@, "fs_sink_buf"@), int_v(cfg.flush_min_bytes)],
                            ),
                            fs_flush_v(hash),
                            int_v(0),
                        ],
                    ),
                    int_v(0),
                ],
            ),
        ],
    )
}

fn extend_range(data: &Expr, data_len: &Expr) -> (r: Expr)
    ensures
        r@ == extend_range_v(data@, data_len@),
{
    let inner = {
        let a = expr_ident("vec_u8.extend_bytes_range");
        let b = expr_ident("fs_sink_buf");
        let c = data.copy_expr();
        let d = expr_int(0);
        let e = data_len.copy_expr();
        let ghost want = seq![a@, b@, c@, d@, e@];
        let mut v: Vec<Expr> = Vec::new();
        assert(view_exprs(v@) =~= Seq::<ExprV>::empty());
        push_item(&mut v, a);
        push_item(&mut v, b);
        push_item(&mut v, c);
        push_item(&mut v, d);
        push_item(&mut v, e);
        assert(view_exprs(v@) =~= want);
        expr_list(v)
    };
    l3(expr_ident("set"), expr_ident("fs_sink_buf"), inner)
}

/// The code pushing `data` into the file sink.
pub fn gen_fs_sink_push(data: &Expr, data_len: &Expr, cfg: WorldFsWriteStreamCfgV1, hash: bool) -> (r: Expr)
    ensures
        r@ == fs_push_v(data@, data_len@, cfg, hash),
{
    let overflow = l4(
        expr_ident("begin"),
        gen_fs_sink_flush(hash),
        l4(
            expr_ident("if"),
            l3(expr_ident(">=u"), data_len.copy_expr(), expr_int(cfg.buf_cap_bytes)),
            gen_fs_sink_write_direct(data, hash),
            extend_range(data, data_len),
        ),
        expr_int(0),
    );
    let fits = l4(
        expr_ident("if"),
        l3(
            expr_ident(">u"),
            l3(expr_ident("+"), expr_ident("bl"), data_len.copy_expr()),
            expr_int(cfg.buf_cap_bytes),
        ),
        overflow,
        extend_range(data, data_len),
    );
    let refill = l4(
        expr_ident("if"),
        l3(expr_ident(">=u"), call("vec_u8.len", "fs_sink_buf"), expr_int(cfg.flush_min_bytes)),
        gen_fs_sink_flush(hash),
        expr_int(0),
    );
    let body = {
        let a = expr_ident("begin");
        let b = let_e("bl", call("vec_u8.len", "fs_sink_buf"));
        let e = expr_int(0);
        let ghost want = seq![a@, b@, fits@, refill@, e@];
        let mut v: Vec<Expr> = Vec::new();
        assert(view_exprs(v@) =~= Seq::<ExprV>::empty());
        push_item(&mut v, a);
        push_item(&mut v, b);
        push_item(&mut v, fits);
        push_item(&mut v, refill);
        push_item(&mut v, e);
        assert(view_exprs(v@) =~= want);
        expr_list(v)
    };
    l4(expr_ident("if"), l3(expr_ident("<="), data_len.copy_expr(), expr_int(0)), expr_int(0), body)
}

} // verus!

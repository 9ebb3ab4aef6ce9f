//! The opening of a TCP write sink in a pipe helper: the runtime check of
//! the capability document it is given, and its counters, limits and
//! buffer.

use vstd::prelude::*;
use crate::ast::{view_exprs, Expr, ExprV};
use crate::pipe_docs::{
    empty_payload_v, err_doc_const, err_doc_v, err_doc_with_payload, expr_ident, expr_int, expr_list, id_v, int_v, l2,
    l3, l4, let_e, let_i32, let_v, list_v, push_item,
};
use crate::stream_pipe::NetTcpWriteStreamHandleCfgV1;

verus! {

/// The error code of an invalid network capability document.
pub const E_NET_CAPS_INVALID: i32 = 60;

pub open spec fn caps_err_v() -> ExprV {
    list_v(seq![id_v("return"@), err_doc_v(int_v(E_NET_CAPS_INVALID), "stream:net_caps_invalid"@, empty_payload_v())])
}

/// `(if cond (return <caps error>) 0)`.
pub open spec fn caps_guard_v(cond: ExprV) -> ExprV {
    list_v(seq![id_v("if"@), cond, caps_err_v(), int_v(0)])
}

pub open spec fn caps_word_v(off: i32) -> ExprV {
    list_v(seq![id_v("codec.read_u32_le"@), id_v("net_sink_caps"@), int_v(off)])
}

/// The checks of the capability view `net_sink_caps`: at least 24 bytes,
/// version word 1, reserved word (at 20) 0, and a positive maximum write
/// size (at 16), bound as `net_sink_mw`.
pub open spec fn validate_caps_v() -> Seq<ExprV> {
    seq![
        caps_guard_v(list_v(seq![id_v("<"@), list_v(seq![id_v("view.len"@), id_v("net_sink_caps"@)]), int_v(24)])),
        caps_guard_v(list_v(seq![id_v("!="@), caps_word_v(0), int_v(1)])),
        caps_guard_v(list_v(seq![id_v("!="@), caps_word_v(20), int_v(0)])),
        let_v("net_sink_mw"@, caps_word_v(16)),
        caps_guard_v(list_v(seq![id_v("<="@), id_v("net_sink_mw"@), int_v(0)])),
    ]
}

fn caps_guard(cond: Expr) -> (r: Expr)
    ensures
        r@ == caps_guard_v(cond@),
{
    l4(
        expr_ident("if"),
        cond,
        l2(expr_ident("return"), err_doc_const(E_NET_CAPS_INVALID, "stream:net_caps_invalid")),
        expr_int(0),
    )
}

fn caps_word(off: i32) -> (r: Expr)
    ensures
        r@ == caps_word_v(off),
{
    l3(expr_ident("codec.read_u32_le"), expr_ident("net_sink_caps"), expr_int(off))
}

/// Appends the capability checks to the helper's items.
pub fn emit_net_sink_validate_caps(items: &mut Vec<Expr>)
    ensures
        view_exprs(final(items)@) == view_exprs(old(items)@) + validate_caps_v(),
{
    let ghost before = view_exprs(items@);
    let a = caps_guard(l3(expr_ident("<"), l2(expr_ident("view.len"), expr_ident("net_sink_caps")), expr_int(24)));
    let b = caps_guard(l3(expr_ident("!="), caps_word(0), expr_int(1)));
    let c = caps_guard(l3(expr_ident("!="), caps_word(20), expr_int(0)));
    let d = let_e("net_sink_mw", caps_word(16));
    let e = caps_guard(l3(expr_ident("<="), expr_ident("net_sink_mw"), expr_int(0)));
    push_item(items, a);
    push_item(items, b);
    push_item(items, c);
    push_item(items, d);
    push_item(items, e);
    assert(view_exprs(items@) =~= before + validate_caps_v());
}

/// `max(1, flush_min_bytes)`.
pub open spec fn flush_unit(cfg: NetTcpWriteStreamHandleCfgV1) -> int {
    if cfg.flush_min_bytes > 1 {
        cfg.flush_min_bytes as int
    } else {
        1
    }
}

/// Integer division rounding toward zero, as `i32` division does.
pub open spec fn div_trunc(x: int, f: int) -> int {
    if x >= 0 {
        x / f
    } else {
        -((-x) / f)
    }
}

/// The flush limit: the configured one, or `ceil(max_out / unit) + 4`; at
/// least 1.
pub open spec fn max_flushes_of(max_out_bytes: i32, cfg: NetTcpWriteStreamHandleCfgV1) -> int {
    let f = flush_unit(cfg);
    let d = if cfg.max_flushes > 0 {
        cfg.max_flushes as int
    } else {
        div_trunc(max_out_bytes + f - 1, f) + 4
    };
    if d > 1 {
        d
    } else {
        1
    }
}

/// The write-call limit: the configured one, or, computed at run time,
/// `(max_out + d - 1) / d + 8` with `d` the smaller (unsigned) of the
/// capability's maximum write size and the flush unit.
pub open spec fn max_write_calls_v(max_out_bytes: i32, cfg: NetTcpWriteStreamHandleCfgV1) -> ExprV {
    let f = flush_unit(cfg) as i32;
    list_v(
        seq![
            id_v("if"@),
            list_v(seq![id_v(">"@), int_v(cfg.max_write_calls), int_v(0)]),
            int_v(cfg.max_write_calls),
            list_v(
                seq![
                    id_v("begin"@),
                    let_v(
                        "d"@,
                        list_v(
                            seq![
                                id_v("if"@),
                                list_v(seq![id_v("<u"@), id_v("net_sink_mw"@), int_v(f)]),
                                id_v("net_sink_mw"@),
                                int_v(f),
                            ],
                        ),
                    ),
                    list_v(
                        seq![
                            id_v("+"@),
                            list_v(
                                seq![
                                    id_v("/"@),
                                    list_v(
                                        seq![
                                            id_v("+"@),
                                            int_v(max_out_bytes),
                                            list_v(seq![id_v("-"@), id_v("d"@), int_v(1)]),
                                        ],
                                    ),
                                    id_v("d"@),
                                ],
                            ),
                            int_v(8),
                        ],
                    ),
                ],
            ),
        ],
    )
}

pub open spec fn let0_v(name: Seq<char>, v: i32) -> ExprV {
    list_v(seq![id_v("let"@), id_v(name), int_v(v)])
}

/// The sink's counters, its flush and write-call limits, and its buffer of
/// `buf_cap_bytes`.
pub open spec fn init_limits_v(max_out_bytes: i32, cfg: NetTcpWriteStreamHandleCfgV1) -> Seq<ExprV> {
    seq![
        let0_v("net_sink_flushes"@, 0),
        let0_v("net_sink_write_calls"@, 0),
        let0_v("net_sink_max_flushes"@, max_flushes_of(max_out_bytes, cfg) as i32),
        let_v("net_sink_max_write_calls"@, max_write_calls_v(max_out_bytes, cfg)),
        let_v("net_sink_buf"@, list_v(seq![id_v("vec_u8.with_capacity"@), int_v(cfg.buf_cap_bytes)])),
    ]
}

/// Appends the sink's counters, limits and buffer to the helper's items;
/// deriving the flush limit must not overflow `i32`.
pub fn emit_net_sink_init_limits_and_buffer(
    items: &mut Vec<Expr>,
    pipe_max_out_bytes: i32,
    cfg: NetTcpWriteStreamHandleCfgV1,
)
    requires
        cfg.max_flushes <= 0 ==> pipe_max_out_bytes + flush_unit(cfg) <= i32::MAX,
        cfg.max_flushes <= 0 ==> div_trunc(pipe_max_out_bytes + flush_unit(cfg) - 1, flush_unit(cfg)) + 4 <= i32::MAX,
    ensures
        view_exprs(final(items)@) == view_exprs(old(items)@) + init_limits_v(pipe_max_out_bytes, cfg),
{
    let ghost before = view_exprs(items@);
    let b = pipe_max_out_bytes;
    let f: i32 = if cfg.flush_min_bytes > 1 {
        cfg.flush_min_bytes
    } else {
        1
    };
    let derived: i32 = if cfg.max_flushes > 0 {
        cfg.max_flushes
    } else {
        (b + f - 1) / f + 4
    };
    let max_flushes: i32 = if derived > 1 {
        derived
    } else {
        1
    };
    assert(max_flushes == max_flushes_of(pipe_max_out_bytes, cfg));
    let e0 = let_i32("net_sink_flushes", 0);
    let e1 = let_i32("net_sink_write_calls", 0);
    let e2 = let_i32("net_sink_max_flushes", max_flushes);
    let d_if = l4(
        expr_ident("if"),
        l3(expr_ident("<u"), expr_ident("net_sink_mw"), expr_int(f)),
        expr_ident("net_sink_mw"),
        expr_int(f),
    );
    let sum = l3(
        expr_ident("+"),
        l3(
            expr_ident("/"),
            l3(expr_ident("+"), expr_int(b), l3(expr_ident("-"), expr_ident("d"), expr_int(1))),
            expr_ident("d"),
        ),
        expr_int(8),
    );
    let computed = l3(expr_ident("begin"), let_e("d", d_if), sum);
    let wc = l4(
        expr_ident("if"),
        l3(expr_ident(">"), expr_int(cfg.max_write_calls), expr_int(0)),
        expr_int(cfg.max_write_calls),
        computed,
    );
    let e3 = let_e("net_sink_max_write_calls", wc);
    let e4 = let_e("net_sink_buf", l2(expr_ident("vec_u8.with_capacity"), expr_int(cfg.buf_cap_bytes)));
    push_item(items, e0);
    push_item(items, e1);
    push_item(items, e2);
    push_item(items, e3);
    push_item(items, e4);
    assert(view_exprs(items@) =~= before + init_limits_v(pipe_max_out_bytes, cfg));
}


pub const E_NET_WRITE_FAILED: i32 = 64;

pub const E_NET_SINK_MAX_FLUSHES: i32 = 65;

pub const E_NET_SINK_MAX_WRITES: i32 = 66;

pub open spec fn call_v(f: Seq<char>, a: Seq<char>) -> ExprV {
    list_v(seq![id_v(f), id_v(a)])
}

/// Closes and drops the stream if the sink owns it, then returns `doc`.
pub open spec fn net_return_err_v(doc: ExprV) -> ExprV {
    list_v(
        seq![
            id_v("begin"@),
            list_v(
                seq![
                    id_v("if"@),
                    list_v(seq![id_v("="@), id_v("net_sink_owned"@), int_v(1)]),
                    list_v(
                        seq![
                            id_v("begin"@),
                            call_v("std.net.tcp.stream_close_v1"@, "net_sink_h"@),
                            call_v("std.net.tcp.stream_drop_v1"@, "net_sink_h"@),
                            int_v(0),
                        ],
                    ),
                    int_v(0),
                ],
            ),
            list_v(seq![id_v("return"@), doc]),
        ],
    )
}

fn call(f: &str, a: &str) -> (r: Expr)
    ensures
        r@ == call_v(f@, a@),
{
    l2(expr_ident(f), expr_ident(a))
}

/// The code returning the error document `doc` from a network sink.
pub fn gen_net_sink_return_err(doc: Expr) -> (r: Expr)
    ensures
        r@ == net_return_err_v(doc@),
{
    let close = l4(
        expr_ident("begin"),
        call("std.net.tcp.stream_close_v1", "net_sink_h"),
        call("std.net.tcp.stream_drop_v1", "net_sink_h"),
        expr_int(0),
    );
    let owned = l4(expr_ident("if"), l3(expr_ident("="), expr_ident("net_sink_owned"), expr_int(1)), close, expr_int(0));
    l3(expr_ident("begin"), owned, l2(expr_ident("return"), doc))
}

pub open spec fn bump_v(name: Seq<char>) -> ExprV {
    list_v(seq![id_v("set"@), id_v(name), list_v(seq![id_v("+"@), id_v(name), int_v(1)])])
}

/// `(if (>u counter limit) <return err> 0)`.
pub open spec fn over_limit_v(counter: Seq<char>, limit: Seq<char>, code: i32, msg: Seq<char>) -> ExprV {
    list_v(
        seq![
            id_v("if"@),
            list_v(seq![id_v(">u"@), id_v(counter), id_v(limit)]),
            net_return_err_v(err_doc_v(int_v(code), msg, empty_payload_v())),
            int_v(0),
        ],
    )
}

/// One round of the write loop: while bytes remain, write the next segment
/// of at most `net_sink_mw` bytes, returning the write error if the reply
/// is an error document, counting the write call against its limit.
pub open spec fn write_round_v(view: ExprV, len: ExprV) -> ExprV {
    list_v(
        seq![
            id_v("begin"@),
            list_v(
                seq![
                    id_v("if"@),
                    list_v(seq![id_v(">=u"@), id_v("pos"@), len]),
                    int_v(0),
                    list_v(
                        seq![
                            id_v("begin"@),
                            let_v("remain"@, list_v(seq![id_v("-"@), len, id_v("pos"@)])),
                            let_v(
                                "seg_len"@,
                                list_v(
                                    seq![
                                        id_v("if"@),
                                        list_v(seq![id_v("<u"@), id_v("remain"@), id_v("net_sink_mw"@)]),
                                        id_v("remain"@),
                                        id_v("net_sink_mw"@),
                                    ],
                                ),
                            ),
                            let_v("seg"@, list_v(seq![id_v("view.slice"@), view, id_v("pos"@), id_v("seg_len"@)])),
                            let_v(
                                "doc"@,
                                list_v(
                                    seq![
                                        id_v("std.net.io.write_all_v1"@),
                                        id_v("net_sink_h"@),
                                        id_v("seg"@),
                                        id_v("net_sink_caps"@),
                                    ],
                                ),
                            ),
                            let_v("dv"@, call_v("bytes.view"@, "doc"@)),
                            list_v(
                                seq![
                                    id_v("if"@),
                                    call_v("std.net.err.is_err_doc_v1"@, "dv"@),
                                    net_return_err_v(
                                        err_doc_v(int_v(E_NET_WRITE_FAILED), "stream:net_write_failed"@, id_v("doc"@)),
                                    ),
                                    int_v(0),
                                ],
                            ),
                            bump_v("net_sink_write_calls"@),
                            over_limit_v(
                                "net_sink_write_calls"@,
                                "net_sink_max_write_calls"@,
                                E_NET_SINK_MAX_WRITES,
                                "stream:net_sink_max_writes"@,
                            ),
                            list_v(
                                seq![id_v("set"@), id_v("pos"@), list_v(seq![id_v("+"@), id_v("pos"@), id_v("seg_len"@)])],
                            ),
                            int_v(0),
                        ],
                    ),
                ],
            ),
            int_v(0),
        ],
    )
}

/// The chunked write of `len` bytes of `view`: one flush counted against
/// its limit, then at most `len + 1` rounds; bytes still left after them
/// are reported as a loop overflow.
pub open spec fn write_loop_v(view: ExprV, len: ExprV) -> Seq<ExprV> {
    seq![
        bump_v("net_sink_flushes"@),
        over_limit_v(
            "net_sink_flushes"@,
            "net_sink_max_flushes"@,
            E_NET_SINK_MAX_FLUSHES,
            "stream:net_sink_max_flushes"@,
        ),
        list_v(seq![id_v("let"@), id_v("pos"@), int_v(0)]),
        let_v("end"@, list_v(seq![id_v("+"@), len, int_v(1)])),
        list_v(seq![id_v("for"@), id_v("_"@), int_v(0), id_v("end"@), write_round_v(view, len)]),
        list_v(
            seq![
                id_v("if"@),
                list_v(seq![id_v("<u"@), id_v("pos"@), len]),
                net_return_err_v(err_doc_v(int_v(1), "stream:net_write_loop_overflow"@, empty_payload_v())),
                int_v(0),
            ],
        ),
    ]
}

fn bump(name: &str) -> (r: Expr)
    ensures
        r@ == bump_v(name@),
{
    l3(expr_ident("set"), expr_ident(name), l3(expr_ident("+"), expr_ident(name), expr_int(1)))
}

fn over_limit(counter: &str, limit: &str, code: i32, msg: &str) -> (r: Expr)
    ensures
        r@ == over_limit_v(counter@, limit@, code, msg@),
{
    l4(
        expr_ident("if"),
        l3(expr_ident(">u"), expr_ident(counter), expr_ident(limit)),
        gen_net_sink_return_err(err_doc_const(code, msg)),
        expr_int(0),
    )
}

fn list_from(v: Vec<Expr>, want: Ghost<Seq<ExprV>>) -> (r: Expr)
    requires
        view_exprs(v@) == want@,
    ensures
        r@ == list_v(want@),
{
    expr_list(v)
}

fn write_round(view: &Expr, len: &Expr) -> (r: Expr)
    ensures
        r@ == write_round_v(view@, len@),
{
    let b0 = expr_ident("begin");
    let b1 = let_e("remain", l3(expr_ident("-"), len.copy_expr(), expr_ident("pos")));
    let b2 = let_e(
        "seg_len",
        l4(
            expr_ident("if"),
            l3(expr_ident("<u"), expr_ident("remain"), expr_ident("net_sink_mw")),
            expr_ident("remain"),
            expr_ident("net_sink_mw"),
        ),
    );
    let b3 = let_e("seg", l4(expr_ident("view.slice"), view.copy_expr(), expr_ident("pos"), expr_ident("seg_len")));
    let b4 = let_e(
        "doc",
        l4(
            expr_ident("std.net.io.write_all_v1"),
            expr_ident("net_sink_h"),
            expr_ident("seg"),
            expr_ident("net_sink_caps"),
        ),
    );
    let b5 = let_e("dv", call("bytes.view", "doc"));
    let b6 = l4(
        expr_ident("if"),
        call("std.net.err.is_err_doc_v1", "dv"),
        gen_net_sink_return_err(
            err_doc_with_payload(expr_int(E_NET_WRITE_FAILED), "stream:net_write_failed", expr_ident("doc")),
        ),
        expr_int(0),
    );
    let b7 = bump("net_sink_write_calls");
    let b8 = over_limit(
        "net_sink_write_calls",
        "net_sink_max_write_calls",
        E_NET_SINK_MAX_WRITES,
        "stream:net_sink_max_writes",
    );
    let b9 = l3(expr_ident("set"), expr_ident("pos"), l3(expr_ident("+"), expr_ident("pos"), expr_ident("seg_len")));
    let b10 = expr_int(0);
    let ghost want = seq![b0@, b1@, b2@, b3@, b4@, b5@, b6@, b7@, b8@, b9@, b10@];
    let mut v: Vec<Expr> = Vec::new();
    assert(view_exprs(v@) =~= Seq::<ExprV>::empty());
    push_item(&mut v, b0);
    push_item(&mut v, b1);
    push_item(&mut v, b2);
    push_item(&mut v, b3);
    push_item(&mut v, b4);
    push_item(&mut v, b5);
    push_item(&mut v, b6);
    push_item(&mut v, b7);
    push_item(&mut v, b8);
    push_item(&mut v, b9);
    push_item(&mut v, b10);
    assert(view_exprs(v@) =~= want);
    let body = list_from(v, Ghost(want));
    let cond = l4(expr_ident("if"), l3(expr_ident(">=u"), expr_ident("pos"), len.copy_expr()), expr_int(0), body);
    l3(expr_ident("begin"), cond, expr_int(0))
}

fn push_write_loop(v: &mut Vec<Expr>, view: &Expr, len: &Expr)
    ensures
        view_exprs(final(v)@) == view_exprs(old(v)@) + write_loop_v(view@, len@),
{
    let ghost before = view_exprs(v@);
    let a = bump("net_sink_flushes");
    let b = over_limit("net_sink_flushes", "net_sink_max_flushes", E_NET_SINK_MAX_FLUSHES, "stream:net_sink_max_flushes");
    let c = let_i32("pos", 0);
    let d = let_e("end", l3(expr_ident("+"), len.copy_expr(), expr_int(1)));
    let round = write_round(view, len);
    let e = {
        let f0 = expr_ident("for");
        let f1 = expr_ident("_");
        let f2 = expr_int(0);
        let f3 = expr_ident("end");
        let ghost want = seq![f0@, f1@, f2@, f3@, round@];
        let mut w: Vec<Expr> = Vec::new();
        assert(view_exprs(w@) =~= Seq::<ExprV>::empty());
        push_item(&mut w, f0);
        push_item(&mut w, f1);
        push_item(&mut w, f2);
        push_item(&mut w, f3);
        push_item(&mut w, round);
        assert(view_exprs(w@) =~= want);
        list_from(w, Ghost(want))
    };
    let f = l4(
        expr_ident("if"),
        l3(expr_ident("<u"), expr_ident("pos"), len.copy_expr()),
        gen_net_sink_return_err(err_doc_const(1, "stream:net_write_loop_overflow")),
        expr_int(0),
    );
    let ghost want = seq![a@, b@, c@, d@, e@, f@];
    push_item(v, a);
    push_item(v, b);
    push_item(v, c);
    push_item(v, d);
    push_item(v, e);
    push_item(v, f);
    assert(view_exprs(v@) =~= before + want);
}

/// Writes out the buffer, when it is not empty, in segments, then starts a
/// fresh buffer of `buf_cap_bytes`.
pub open spec fn net_flush_v(cfg: NetTcpWriteStreamHandleCfgV1) -> ExprV {
    list_v(
        seq![
            id_v("if"@),
            list_v(seq![id_v("<="@), call_v("vec_u8.len"@, "net_sink_buf"@), int_v(0)]),
            int_v(0),
            list_v(
                seq![
                    id_v("begin"@),
                    let_v("bv"@, call_v("vec_u8.as_view"@, "net_sink_buf"@)),
                    let_v("bl"@, call_v("vec_u8.len"@, "net_sink_buf"@)),
                ] + write_loop_v(id_v("bv"@), id_v("bl"@)) + seq![
                    list_v(
                        seq![
                            id_v("set"@),
                            id_v("net_sink_buf"@),
                            list_v(seq![id_v("vec_u8.with_capacity"@), int_v(cfg.buf_cap_bytes)]),
                        ],
                    ),
                    int_v(0),
                ],
            ),
        ],
    )
}

/// The code flushing the network sink's buffer.
pub fn gen_net_sink_flush(cfg: NetTcpWriteStreamHandleCfgV1) -> (r: Expr)
    ensures
        r@ == net_flush_v(cfg),
{
    let mut v: Vec<Expr> = Vec::new();
    assert(view_exprs(v@) =~= Seq::<ExprV>::empty());
    push_item(&mut v, expr_ident("begin"));
    push_item(&mut v, let_e("bv", call("vec_u8.as_view", "net_sink_buf")));
    push_item(&mut v, let_e("bl", call("vec_u8.len", "net_sink_buf")));
    let ghost head = view_exprs(v@);
    push_write_loop(&mut v, &expr_ident("bv"), &expr_ident("bl"));
    let ghost mid = view_exprs(v@);
    let reset = l3(
        expr_ident("set"),
        expr_ident("net_sink_buf"),
        l2(expr_ident("vec_u8.with_capacity"), expr_int(cfg.buf_cap_bytes)),
    );
    push_item(&mut v, reset);
    push_item(&mut v, expr_int(0));
    let ghost tail = seq![
        list_v(
            seq![
                id_v("set"@),
                id_v("net_sink_buf"@),
                list_v(seq![id_v("vec_u8.with_capacity"@), int_v(cfg.buf_cap_bytes)]),
            ],
        ),
        int_v(0),
    ];
    assert(view_exprs(v@) =~= mid + tail);
    let ghost want = seq![
        id_v("begin"@),
        let_v("bv"@, call_v("vec_u8.as_view"@, "net_sink_buf"@)),
        let_v("bl"@, call_v("vec_u8.len"@, "net_sink_buf"@)),
    ] + write_loop_v(id_v("bv"@), id_v("bl"@)) + tail;
    assert(head =~= seq![
        id_v("begin"@),
        let_v("bv"@, call_v("vec_u8.as_view"@, "net_sink_buf"@)),
        let_v("bl"@, call_v("vec_u8.len"@, "net_sink_buf"@)),
    ]);
    assert(view_exprs(v@) =~= want);
    let body = list_from(v, Ghost(want));
    l4(expr_ident("if"), l3(expr_ident("<="), call("vec_u8.len", "net_sink_buf"), expr_int(0)), expr_int(0), body)
}

/// Writes `data_len` bytes of the view `data` straight to the stream, in
/// segments.
pub open spec fn net_write_direct_v(data: ExprV, data_len: ExprV) -> ExprV {
    list_v(
        seq![
            id_v("if"@),
            list_v(seq![id_v("<="@), data_len, int_v(0)]),
            int_v(0),
            list_v(seq![id_v("begin"@)] + write_loop_v(data, data_len) + seq![int_v(0)]),
        ],
    )
}

/// The code writing `data` straight to the network stream.
pub fn gen_net_sink_write_direct(data: &Expr, data_len: &Expr) -> (r: Expr)
    ensures
        r@ == net_write_direct_v(data@, data_len@),
{
    let mut v: Vec<Expr> = Vec::new();
    assert(view_exprs(v@) =~= Seq::<ExprV>::empty());
    push_item(&mut v, expr_ident("begin"));
    let ghost head = view_exprs(v@);
    push_write_loop(&mut v, data, data_len);
    push_item(&mut v, expr_int(0));
    let ghost want = seq![id_v("begin"@)] + write_loop_v(data@, data_len@) + seq![int_v(0)];
    assert(head =~= seq![id_v("begin"@)]);
    assert(view_exprs(v@) =~= want);
    let body = list_from(v, Ghost(want));
    l4(expr_ident("if"), l3(expr_ident("<="), data_len.copy_expr(), expr_int(0)), expr_int(0), body)
}

pub open spec fn net_extend_v(data: ExprV, data_len: ExprV) -> ExprV {
    list_v(
        seq![
            id_v("set"@),
            id_v("net_sink_buf"@),
            list_v(seq![id_v("vec_u8.extend_bytes_range"@), id_v("net_sink_buf"@), data, int_v(0), data_len]),
        ],
    )
}

/// Pushes `data` into the network sink: when it does not fit in the
/// buffer, the buffer is flushed first and data at least as long as the
/// buffer is written directly; afterwards a buffer holding at least
/// `flush_min_bytes` is flushed.
pub open spec fn net_push_v(data: ExprV, data_len: ExprV, cfg: NetTcpWriteStreamHandleCfgV1) -> ExprV {
    list_v(
        seq![
            id_v("if"@),
            list_v(seq![id_v("<="@), data_len, int_v(0)]),
            int_v(0),
            list_v(
                seq![
                    id_v("begin"@),
                    let_v("bl"@, call_v("vec_u8.len"@, "net_sink_buf"@)),
                    list_v(
                        seq![
                            id_v("if"@),
                            list_v(
                                seq![
                                    id_v(">u"@),
                                    list_v(seq![id_v("+"@), id_v("bl"@), data_len]),
                                    int_v(cfg.buf_cap_bytes),
                                ],
                            ),
                            list_v(
                                seq![
                                    id_v("begin"@),
                                    net_flush_v(cfg),
                                    list_v(
                                        seq![
                                            id_v("if"@),
                                            list_v(seq![id_v(">=u"@), data_len, int_v(cfg.buf_cap_bytes)]),
                                            net_write_direct_v(data, data_len),
                                            net_extend_v(data, data_len),
                                        ],
                                    ),
                                    int_v(0),
                                ],
                            ),
                            net_extend_v(data, data_len),
                        ],
                    ),
                    list_v(
                        seq![
                            id_v("if"@),
                            list_v(
                                seq![id_v(">=u"@), call_v("vec_u8.len"@, "net_sink_buf"@), int_v(cfg.flush_min_bytes)],
                            ),
                            net_flush_v(cfg),
                            int_v(0),
                        ],
                    ),
                    int_v(0),
                ],
            ),
        ],
    )
}

fn net_extend(data: &Expr, data_len: &Expr) -> (r: Expr)
    ensures
        r@ == net_extend_v(data@, data_len@),
{
    let a = expr_ident("vec_u8.extend_bytes_range");
    let b = expr_ident("net_sink_buf");
    let c = data.copy_expr();
    let d = expr_int(0);
    let e = data_len.copy_expr();
    let ghost want = seq![a@, b@, c@, d@, e@];
    let mut v: Vec<Expr> = Vec::new();
    assert(view_exprs(v@) =~= Seq::<ExprV>::empty());
    push_item(&mut v, a);
    push_item(&mut v, b);
    push_item(&mut v, c);
    push_item(&mut v, d);
    push_item(&mut v, e);
    assert(view_exprs(v@) =~= want);
    l3(expr_ident("set"), expr_ident("net_sink_buf"), list_from(v, Ghost(want)))
}

/// The code pushing `data` into the network sink.
pub fn gen_net_sink_push(data: &Expr, data_len: &Expr, cfg: NetTcpWriteStreamHandleCfgV1) -> (r: Expr)
    ensures
        r@ == net_push_v(data@, data_len@, cfg),
{
    let overflow = l4(
        expr_ident("begin"),
        gen_net_sink_flush(cfg),
        l4(
            expr_ident("if"),
            l3(expr_ident(">=u"), data_len.copy_expr(), expr_int(cfg.buf_cap_bytes)),
            gen_net_sink_write_direct(data, data_len),
            net_extend(data, data_len),
        ),
        expr_int(0),
    );
    let fits = l4(
        expr_ident("if"),
        l3(
            expr_ident(">u"),
            l3(expr_ident("+"), expr_ident("bl"), data_len.copy_expr()),
            expr_int(cfg.buf_cap_bytes),
        ),
        overflow,
        net_extend(data, data_len),
    );
    let refill = l4(
        expr_ident("if"),
        l3(expr_ident(">=u"), call("vec_u8.len", "net_sink_buf"), expr_int(cfg.flush_min_bytes)),
        gen_net_sink_flush(cfg),
        expr_int(0),
    );
    let a = expr_ident("begin");
    let b = let_e("bl", call("vec_u8.len", "net_sink_buf"));
    let e = expr_int(0);
    let ghost want = seq![a@, b@, fits@, refill@, e@];
    let mut v: Vec<Expr> = Vec::new();
    assert(view_exprs(v@) =~= Seq::<ExprV>::empty());
    push_item(&mut v, a);
    push_item(&mut v, b);
    push_item(&mut v, fits);
    push_item(&mut v, refill);
    push_item(&mut v, e);
    assert(view_exprs(v@) =~= want);
    l4(expr_ident("if"), l3(expr_ident("<="), data_len.copy_expr(), expr_int(0)), expr_int(0), list_from(v, Ghost(want)))
}

} // verus!

//! The end of a pipe helper: finishing its sink and returning the ok
//! document, whose payload is what the sink produced (the collected bytes,
//! the hash, or nothing).

use vstd::prelude::*;
use crate::ast::{view_exprs, Expr, ExprV};
use crate::pipe_docs::{
    empty_payload_v, err_doc_v, err_doc_with_payload, expr_ident, expr_int, expr_list, extend_u32, extend_u32_v, id_v,
    int_v, l2, l3, l4, let_e, let_v, list_v, ok_doc, ok_doc_v, param_ident, push_item,
};
use crate::pipe_fs_sink::{fs_flush_v, gen_fs_sink_flush};
use crate::pipe_net_sink::{call_v, gen_net_sink_flush, net_flush_v};
use crate::pipe_prelude::param_v;
use crate::stream_pipe::{NetSinkOnFinishV1, SinkBaseV1};

verus! {

pub const E_SINK_FS_WRITE_FAILED: i32 = 41;

pub const E_SINK_FS_CLOSE_FAILED: i32 = 42;

pub open spec fn ret_v(e: ExprV) -> ExprV {
    list_v(seq![id_v("return"@), e])
}

/// Writing the collected bytes to the file at the path parameter, then
/// returning an empty ok document, or the write error with its code.
pub open spec fn write_file_v(emit_payload: bool, emit_stats: bool, path_param: usize) -> ExprV {
    list_v(
        seq![
            id_v("begin"@),
            let_v("file_bytes"@, call_v("vec_u8.into_bytes"@, "sink_vec"@)),
            let_v("rc"@, list_v(seq![id_v("os.fs.write_file"@), param_v(path_param as int), id_v("file_bytes"@)])),
            list_v(
                seq![
                    id_v("if"@),
                    list_v(seq![id_v("!="@), id_v("rc"@), int_v(0)]),
                    ret_v(
                        err_doc_v(
                            int_v(E_SINK_FS_WRITE_FAILED),
                            "stream:fs_write_failed"@,
                            list_v(seq![id_v("codec.write_u32_le"@), id_v("rc"@)]),
                        ),
                    ),
                    int_v(0),
                ],
            ),
            ret_v(ok_doc_v(emit_payload, emit_stats, empty_payload_v())),
        ],
    )
}

/// Flushing the file stream, closing and dropping it, reporting a failed
/// close (payload: error code, flushes, bytes out), else returning the ok
/// document with the hash when the sink hashes.
pub open spec fn close_stream_v(emit_payload: bool, emit_stats: bool, hash: bool) -> ExprV {
    list_v(
        seq![
            id_v("begin"@),
            fs_flush_v(hash),
            let_v("cl"@, call_v("os.fs.stream_close_v1"@, "fs_sink_h"@)),
            call_v("os.fs.stream_drop_v1"@, "fs_sink_h"@),
            list_v(
                seq![
                    id_v("if"@),
                    call_v("result_i32.is_ok"@, "cl"@),
                    int_v(0),
                    list_v(
                        seq![
                            id_v("begin"@),
                            let_v("ec"@, call_v("result_i32.err_code"@, "cl"@)),
                            let_v("pl"@, list_v(seq![id_v("vec_u8.with_capacity"@), int_v(12)])),
                            extend_u32_v("pl"@, id_v("ec"@)),
                            extend_u32_v("pl"@, id_v("fs_sink_flushes"@)),
                            extend_u32_v("pl"@, id_v("bytes_out"@)),
                            ret_v(
                                err_doc_v(
                                    int_v(E_SINK_FS_CLOSE_FAILED),
                                    "stream:fs_close_failed"@,
                                    call_v("vec_u8.into_bytes"@, "pl"@),
                                ),
                            ),
                        ],
                    ),
                ],
            ),
            ret_v(
                ok_doc_v(
                    emit_payload,
                    emit_stats,
                    if hash {
                        list_v(seq![id_v("codec.write_u32_le"@), id_v("hash"@)])
                    } else {
                        empty_payload_v()
                    },
                ),
            ),
        ],
    )
}

pub open spec fn close_drop_v() -> ExprV {
    list_v(
        seq![
            id_v("begin"@),
            call_v("std.net.tcp.stream_close_v1"@, "net_sink_h"@),
            call_v("std.net.tcp.stream_drop_v1"@, "net_sink_h"@),
            int_v(0),
        ],
    )
}

/// What a network sink does with its stream when done: nothing, shut down
/// writing (then close an owned stream), or close.
pub open spec fn finish_v(on_finish: NetSinkOnFinishV1) -> ExprV {
    match on_finish {
        NetSinkOnFinishV1::LeaveOpen => int_v(0),
        NetSinkOnFinishV1::ShutdownWrite => list_v(
            seq![
                id_v("begin"@),
                list_v(
                    seq![
                        id_v("std.net.tcp.stream_shutdown_v1"@),
                        id_v("net_sink_h"@),
                        list_v(seq![id_v("std.net.tcp.shutdown_write_v1"@)]),
                    ],
                ),
                list_v(
                    seq![
                        id_v("if"@),
                        list_v(seq![id_v("="@), id_v("net_sink_owned"@), int_v(1)]),
                        close_drop_v(),
                        int_v(0),
                    ],
                ),
                int_v(0),
            ],
        ),
        NetSinkOnFinishV1::Close => close_drop_v(),
    }
}

/// The helper's final return for its sink: the collected bytes, the hash,
/// or nothing as payload; file and network sinks are finished first.
pub open spec fn return_ok_v(emit_payload: bool, emit_stats: bool, sink: SinkBaseV1) -> ExprV {
    match sink {
        SinkBaseV1::CollectBytes => ret_v(ok_doc_v(emit_payload, emit_stats, call_v("vec_u8.into_bytes"@, "sink_vec"@))),
        SinkBaseV1::HashFnv1a32 => ret_v(
            ok_doc_v(emit_payload, emit_stats, list_v(seq![id_v("codec.write_u32_le"@), id_v("hash"@)])),
        ),
        SinkBaseV1::Null => ret_v(ok_doc_v(emit_payload, emit_stats, empty_payload_v())),
        SinkBaseV1::WorldFsWriteFile { path_param } => write_file_v(emit_payload, emit_stats, path_param),
        SinkBaseV1::WorldFsWriteStream { .. } => close_stream_v(emit_payload, emit_stats, false),
        SinkBaseV1::WorldFsWriteStreamHashFnv1a32 { .. } => close_stream_v(emit_payload, emit_stats, true),
        SinkBaseV1::NetTcpWriteStreamHandle { cfg, .. } => list_v(
            seq![
                id_v("begin"@),
                net_flush_v(cfg),
                finish_v(cfg.on_finish),
                ret_v(ok_doc_v(emit_payload, emit_stats, empty_payload_v())),
            ],
        ),
        SinkBaseV1::NetTcpConnectWrite { cfg, .. } => list_v(
            seq![
                id_v("begin"@),
                net_flush_v(cfg),
                finish_v(cfg.on_finish),
                ret_v(ok_doc_v(emit_payload, emit_stats, empty_payload_v())),
            ],
        ),
    }
}

fn call(f: &str, a: &str) -> (r: Expr)
    ensures
        r@ == call_v(f@, a@),
{
    l2(expr_ident(f), expr_ident(a))
}

fn ret(e: Expr) -> (r: Expr)
    ensures
        r@ == ret_v(e@),
{
    l2(expr_ident("return"), e)
}

fn empty_payload() -> (r: Expr)
    ensures
        r@ == empty_payload_v(),
{
    l2(expr_ident("bytes.alloc"), expr_int(0))
}

fn write_file(emit_payload: bool, emit_stats: bool, path_param: usize) -> (r: Expr)
    ensures
        r@ == write_file_v(emit_payload, emit_stats, path_param),
{
    let a = expr_ident("begin");
    let b = let_e("file_bytes", call("vec_u8.into_bytes", "sink_vec"));
    let c = let_e("rc", l3(expr_ident("os.fs.write_file"), param_ident(path_param), expr_ident("file_bytes")));
    let d = l4(
        expr_ident("if"),
        l3(expr_ident("!="), expr_ident("rc"), expr_int(0)),
        ret(
            err_doc_with_payload(
                expr_int(E_SINK_FS_WRITE_FAILED),
                "stream:fs_write_failed",
                l2(expr_ident("codec.write_u32_le"), expr_ident("rc")),
            ),
        ),
        expr_int(0),
    );
    let e = ret(ok_doc(emit_payload, emit_stats, empty_payload()));
    let ghost want = seq![a@, b@, c@, d@, e@];
    let mut v: Vec<Expr> = Vec::new();
    assert(view_exprs(v@) =~= Seq::<ExprV>::empty());
    push_item(&mut v, a);
    push_item(&mut v, b);
    push_item(&mut v, c);
    push_item(&mut v, d);
    push_item(&mut v, e);
    assert(view_exprs(v@) =~= want);
    expr_list(v)
}

fn close_stream(emit_payload: bool, emit_stats: bool, hash: bool) -> (r: Expr)
    ensures
        r@ == close_stream_v(emit_payload, emit_stats, hash),
{
    let failed = {
        let a = expr_ident("begin");
        let b = let_e("ec", call("result_i32.err_code", "cl"));
        let c = let_e("pl", l2(expr_ident("vec_u8.with_capacity"), expr_int(12)));
        let d = extend_u32("pl", expr_ident("ec"));
        let e = extend_u32("pl", expr_ident("fs_sink_flushes"));
        let f = extend_u32("pl", expr_ident("bytes_out"));
        let g = ret(
            err_doc_with_payload(
                expr_int(E_SINK_FS_CLOSE_FAILED),
                "stream:fs_close_failed",
                call("vec_u8.into_bytes", "pl"),
            ),
        );
        let ghost want = seq![a@, b@, c@, d@, e@, f@, g@];
        let mut v: Vec<Expr> = Vec::new();
        assert(view_exprs(v@) =~= Seq::<ExprV>::empty());
        push_item(&mut v, a);
        push_item(&mut v, b);
        push_item(&mut v, c);
        push_item(&mut v, d);
        push_item(&mut v, e);
        push_item(&mut v, f);
        push_item(&mut v, g);
        assert(view_exprs(v@) =~= want);
        expr_list(v)
    };
    let payload = if hash {
        l2(expr_ident("codec.write_u32_le"), expr_ident("hash"))
    } else {
        empty_payload()
    };
    let s0 = expr_ident("begin");
    let s1 = gen_fs_sink_flush(hash);
    let s2 = let_e("cl", call("os.fs.stream_close_v1", "fs_sink_h"));
    let s3 = call("os.fs.stream_drop_v1", "fs_sink_h");
    let s4 = l4(expr_ident("if"), call("result_i32.is_ok", "cl"), expr_int(0), failed);
    let s5 = ret(ok_doc(emit_payload, emit_stats, payload));
    let ghost want = seq![s0@, s1@, s2@, s3@, s4@, s5@];
    let mut v: Vec<Expr> = Vec::new();
    assert(view_exprs(v@) =~= Seq::<ExprV>::empty());
    push_item(&mut v, s0);
    push_item(&mut v, s1);
    push_item(&mut v, s2);
    push_item(&mut v, s3);
    push_item(&mut v, s4);
    push_item(&mut v, s5);
    assert(view_exprs(v@) =~= want);
    expr_list(v)
}

fn close_drop() -> (r: Expr)
    ensures
        r@ == close_drop_v(),
{
    l4(
        expr_ident("begin"),
        call("std.net.tcp.stream_close_v1", "net_sink_h"),
        call("std.net.tcp.stream_drop_v1", "net_sink_h"),
        expr_int(0),
    )
}

fn finish(on_finish: NetSinkOnFinishV1) -> (r: Expr)
    ensures
        r@ == finish_v(on_finish),
{
    match on_finish {
        NetSinkOnFinishV1::LeaveOpen => expr_int(0),
        NetSinkOnFinishV1::ShutdownWrite => l4(
            expr_ident("begin"),
            l3(
                expr_ident("std.net.tcp.stream_shutdown_v1"),
                expr_ident("net_sink_h"),
                expr_list_one(expr_ident("std.net.tcp.shutdown_write_v1")),
            ),
            l4(
                expr_ident("if"),
                l3(expr_ident("="), expr_ident("net_sink_owned"), expr_int(1)),
                close_drop(),
                expr_int(0),
            ),
            expr_int(0),
        ),
        NetSinkOnFinishV1::Close => close_drop(),
    }
}

fn expr_list_one(a: Expr) -> (r: Expr)
    ensures
        r@ == list_v(seq![a@]),
{
    let ghost want = seq![a@];
    let mut v: Vec<Expr> = Vec::new();
    assert(view_exprs(v@) =~= Seq::<ExprV>::empty());
    push_item(&mut v, a);
    assert(view_exprs(v@) =~= want);
    expr_list(v)
}

/// The code ending the helper for its sink `sink`, with the payload and
/// statistics emitted as the flags say.
pub fn gen_return_ok(emit_payload: bool, emit_stats: bool, sink: &SinkBaseV1) -> (r: Expr)
    ensures
        r@ == return_ok_v(emit_payload, emit_stats, *sink),
{
    match sink {
        SinkBaseV1::CollectBytes => ret(ok_doc(emit_payload, emit_stats, call("vec_u8.into_bytes", "sink_vec"))),
        SinkBaseV1::HashFnv1a32 => ret(
            ok_doc(emit_payload, emit_stats, l2(expr_ident("codec.write_u32_le"), expr_ident("hash"))),
        ),
        SinkBaseV1::Null => ret(ok_doc(emit_payload, emit_stats, empty_payload())),
        SinkBaseV1::WorldFsWriteFile { path_param } => write_file(emit_payload, emit_stats, *path_param),
        SinkBaseV1::WorldFsWriteStream { .. } => close_stream(emit_payload, emit_stats, false),
        SinkBaseV1::WorldFsWriteStreamHashFnv1a32 { .. } => close_stream(emit_payload, emit_stats, true),
        SinkBaseV1::NetTcpWriteStreamHandle { cfg, .. } => l4(
            expr_ident("begin"),
            gen_net_sink_flush(*cfg),
            finish(cfg.on_finish),
            ret(ok_doc(emit_payload, emit_stats, empty_payload())),
        ),
        SinkBaseV1::NetTcpConnectWrite { cfg, .. } => l4(
            expr_ident("begin"),
            gen_net_sink_flush(*cfg),
            finish(cfg.on_finish),
            ret(ok_doc(emit_payload, emit_stats, empty_payload())),
        ),
    }
}

} // verus!

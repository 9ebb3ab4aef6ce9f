//! The sink state a pipe helper sets up before reading its source: the
//! collected bytes, the running hash, the network stream (taken from a
//! parameter or connected here) with its checked capabilities and limits,
//! or the opened file stream with its buffer.

use vstd::prelude::*;
use crate::ast::{view_exprs, Expr, ExprV};
use crate::pipe_docs::{
    empty_payload_v, err_doc_const, err_doc_v, err_doc_with_payload, expr_ident, expr_int, expr_list, extend_u32,
    extend_u32_v, id_v, int_v, l2, l3, l4, let_e, let_i32, let_v, list_v, param_ident, push_item,
};
use crate::pipe_net_sink::{
    call_v, div_trunc, emit_net_sink_init_limits_and_buffer, emit_net_sink_validate_caps, flush_unit, init_limits_v,
    validate_caps_v, E_NET_WRITE_FAILED,
};
use crate::pipe_prelude::param_v;
use crate::stream_pipe::{NetTcpWriteStreamHandleCfgV1, SinkBaseV1, WorldFsWriteStreamCfgV1};

verus! {

/// The FNV-1a offset basis `0x811c9dc5`, as an `i32`.
pub const FNV1A32_OFFSET_BASIS: i32 = -2128831035;

pub const E_NET_READ_DOC_INVALID: i32 = 62;

pub const E_SINK_FS_OPEN_FAILED: i32 = 40;

pub open spec fn lv(name: Seq<char>, v: i32) -> ExprV {
    list_v(seq![id_v("let"@), id_v(name), int_v(v)])
}

/// Binding the capability bytes of parameter `caps` and their view.
pub open spec fn caps_v(caps: int) -> Seq<ExprV> {
    seq![let_v("net_sink_caps_b"@, param_v(caps)), let_v("net_sink_caps"@, call_v("bytes.view"@, "net_sink_caps_b"@))]
}

/// Connecting to the address view with the capabilities; a reply that is
/// an error document, or a handle that is not positive, ends the helper.
pub open spec fn connect_v() -> Seq<ExprV> {
    seq![
        let_v(
            "net_sink_connect_doc"@,
            list_v(seq![id_v("std.net.tcp.connect_v1"@), id_v("net_sink_addr"@), id_v("net_sink_caps"@)]),
        ),
        let_v("net_sink_connect_dv"@, call_v("bytes.view"@, "net_sink_connect_doc"@)),
        list_v(
            seq![
                id_v("if"@),
                call_v("std.net.err.is_err_doc_v1"@, "net_sink_connect_dv"@),
                list_v(
                    seq![
                        id_v("return"@),
                        err_doc_v(int_v(E_NET_WRITE_FAILED), "stream:net_connect_failed"@, id_v("net_sink_connect_doc"@)),
                    ],
                ),
                int_v(0),
            ],
        ),
        let_v("net_sink_h"@, call_v("std.net.tcp.connect_stream_handle_v1"@, "net_sink_connect_dv"@)),
        list_v(
            seq![
                id_v("if"@),
                list_v(seq![id_v("<="@), id_v("net_sink_h"@), int_v(0)]),
                list_v(
                    seq![
                        id_v("return"@),
                        err_doc_v(int_v(E_NET_READ_DOC_INVALID), "stream:net_connect_doc_invalid"@, empty_payload_v()),
                    ],
                ),
                int_v(0),
            ],
        ),
    ]
}

/// Opening the file stream for the path and capability parameters; a
/// failed open ends the helper (payload: error code, 0 flushes, bytes out);
/// then the stream's handle, flush counter, flush limit and buffer.
pub open spec fn fs_open_v(path: int, caps: int, cfg: WorldFsWriteStreamCfgV1) -> Seq<ExprV> {
    seq![
        let_v("fs_sink_path_b"@, param_v(path)),
        let_v("fs_sink_caps_b"@, param_v(caps)),
        let_v(
            "fs_open"@,
            list_v(seq![id_v("os.fs.stream_open_write_v1"@), id_v("fs_sink_path_b"@), id_v("fs_sink_caps_b"@)]),
        ),
        list_v(
            seq![
                id_v("if"@),
                call_v("result_i32.is_ok"@, "fs_open"@),
                int_v(0),
                list_v(
                    seq![
                        id_v("begin"@),
                        let_v("ec"@, call_v("result_i32.err_code"@, "fs_open"@)),
                        let_v("pl"@, list_v(seq![id_v("vec_u8.with_capacity"@), int_v(12)])),
                        extend_u32_v("pl"@, id_v("ec"@)),
                        extend_u32_v("pl"@, int_v(0)),
                        extend_u32_v("pl"@, id_v("bytes_out"@)),
                        list_v(
                            seq![
                                id_v("return"@),
                                err_doc_v(
                                    int_v(E_SINK_FS_OPEN_FAILED),
                                    "stream:fs_open_failed"@,
                                    call_v("vec_u8.into_bytes"@, "pl"@),
                                ),
                            ],
                        ),
                    ],
                ),
            ],
        ),
        let_v("fs_sink_h"@, list_v(seq![id_v("result_i32.unwrap_or"@), id_v("fs_open"@), int_v(-1i32)])),
        lv("fs_sink_flushes"@, 0),
        lv("fs_sink_max_flushes"@, cfg.max_flushes),
        let_v("fs_sink_buf"@, list_v(seq![id_v("vec_u8.with_capacity"@), int_v(cfg.buf_cap_bytes)])),
    ]
}

/// The sink state for sink `base` of a pipe whose output limit is
/// `max_out_bytes`.
pub open spec fn sink_init_v(base: SinkBaseV1, max_out_bytes: i32) -> Seq<ExprV> {
    match base {
        SinkBaseV1::CollectBytes | SinkBaseV1::WorldFsWriteFile { .. } => seq![
            let_v("sink_vec"@, list_v(seq![id_v("vec_u8.with_capacity"@), int_v(max_out_bytes)])),
        ],
        SinkBaseV1::HashFnv1a32 => seq![lv("hash"@, FNV1A32_OFFSET_BASIS)],
        SinkBaseV1::Null => Seq::empty(),
        SinkBaseV1::NetTcpWriteStreamHandle { stream_handle_param, caps_param, cfg } => seq![
            let_v("net_sink_h"@, param_v(stream_handle_param as int)),
            lv("net_sink_owned"@, 0),
        ] + caps_v(caps_param as int) + validate_caps_v() + init_limits_v(max_out_bytes, cfg),
        SinkBaseV1::NetTcpConnectWrite { addr_param, caps_param, cfg } => seq![
            let_v("net_sink_addr_b"@, param_v(addr_param as int)),
            lv("net_sink_owned"@, 1),
            let_v("net_sink_addr"@, call_v("bytes.view"@, "net_sink_addr_b"@)),
        ] + caps_v(caps_param as int) + validate_caps_v() + connect_v() + init_limits_v(max_out_bytes, cfg),
        SinkBaseV1::WorldFsWriteStream { path_param, caps_param, cfg } => fs_open_v(
            path_param as int,
            caps_param as int,
            cfg,
        ),
        SinkBaseV1::WorldFsWriteStreamHashFnv1a32 { path_param, caps_param, cfg } => seq![
            lv("hash"@, FNV1A32_OFFSET_BASIS),
        ] + fs_open_v(path_param as int, caps_param as int, cfg),
    }
}

/// Deriving a network sink's flush limit does not overflow.
pub open spec fn net_limits_fit(max_out_bytes: i32, cfg: NetTcpWriteStreamHandleCfgV1) -> bool {
    cfg.max_flushes <= 0 ==> max_out_bytes + flush_unit(cfg) <= i32::MAX && div_trunc(
        max_out_bytes + flush_unit(cfg) - 1,
        flush_unit(cfg),
    ) + 4 <= i32::MAX
}

pub open spec fn sink_init_fits(base: SinkBaseV1, max_out_bytes: i32) -> bool {
    match base {
        SinkBaseV1::NetTcpWriteStreamHandle { cfg, .. } => net_limits_fit(max_out_bytes, cfg),
        SinkBaseV1::NetTcpConnectWrite { cfg, .. } => net_limits_fit(max_out_bytes, cfg),
        _ => true,
    }
}

fn call(f: &str, a: &str) -> (r: Expr)
    ensures
        r@ == call_v(f@, a@),
{
    l2(expr_ident(f), expr_ident(a))
}

fn push_caps(v: &mut Vec<Expr>, caps: usize)
    ensures
        view_exprs(final(v)@) == view_exprs(old(v)@) + caps_v(caps as int),
{
    let ghost before = view_exprs(v@);
    let a = let_e("net_sink_caps_b", param_ident(caps));
    let b = let_e("net_sink_caps", call("bytes.view", "net_sink_caps_b"));
    let ghost want = seq![a@, b@];
    push_item(v, a);
    push_item(v, b);
    assert(view_exprs(v@) =~= before + want);
}

fn push_connect(v: &mut Vec<Expr>)
    ensures
        view_exprs(final(v)@) == view_exprs(old(v)@) + connect_v(),
{
    let ghost before = view_exprs(v@);
    let a = let_e(
        "net_sink_connect_doc",
        l3(expr_ident("std.net.tcp.connect_v1"), expr_ident("net_sink_addr"), expr_ident("net_sink_caps")),
    );
    let b = let_e("net_sink_connect_dv", call("bytes.view", "net_sink_connect_doc"));
    let c = l4(
        expr_ident("if"),
        call("std.net.err.is_err_doc_v1", "net_sink_connect_dv"),
        l2(
            expr_ident("return"),
            err_doc_with_payload(
                expr_int(E_NET_WRITE_FAILED),
                "stream:net_connect_failed",
                expr_ident("net_sink_connect_doc"),
            ),
        ),
        expr_int(0),
    );
    let d = let_e("net_sink_h", call("std.net.tcp.connect_stream_handle_v1", "net_sink_connect_dv"));
    let e = l4(
        expr_ident("if"),
        l3(expr_ident("<="), expr_ident("net_sink_h"), expr_int(0)),
        l2(expr_ident("return"), err_doc_const(E_NET_READ_DOC_INVALID, "stream:net_connect_doc_invalid")),
        expr_int(0),
    );
    let ghost want = seq![a@, b@, c@, d@, e@];
    push_item(v, a);
    push_item(v, b);
    push_item(v, c);
    push_item(v, d);
    push_item(v, e);
    assert(view_exprs(v@) =~= before + want);
}

fn push_fs_open(v: &mut Vec<Expr>, path: usize, caps: usize, cfg: WorldFsWriteStreamCfgV1)
    ensures
        view_exprs(final(v)@) == view_exprs(old(v)@) + fs_open_v(path as int, caps as int, cfg),
{
    let ghost before = view_exprs(v@);
    let failed = {
        let a = expr_ident("begin");
        let b = let_e("ec", call("result_i32.err_code", "fs_open"));
        let c = let_e("pl", l2(expr_ident("vec_u8.with_capacity"), expr_int(12)));
        let d = extend_u32("pl", expr_ident("ec"));
        let e = extend_u32("pl", expr_int(0));
        let f = extend_u32("pl", expr_ident("bytes_out"));
        let g = l2(
            expr_ident("return"),
            err_doc_with_payload(expr_int(E_SINK_FS_OPEN_FAILED), "stream:fs_open_failed", call("vec_u8.into_bytes", "pl")),
        );
        let ghost want = seq![a@, b@, c@, d@, e@, f@, g@];
        let mut w: Vec<Expr> = Vec::new();
        assert(view_exprs(w@) =~= Seq::<ExprV>::empty());
        push_item(&mut w, a);
        push_item(&mut w, b);
        push_item(&mut w, c);
        push_item(&mut w, d);
        push_item(&mut w, e);
        push_item(&mut w, f);
        push_item(&mut w, g);
        assert(view_exprs(w@) =~= want);
        expr_list(w)
    };
    let s0 = let_e("fs_sink_path_b", param_ident(path));
    let s1 = let_e("fs_sink_caps_b", param_ident(caps));
    let s2 = let_e(
        "fs_open",
        l3(expr_ident("os.fs.stream_open_write_v1"), expr_ident("fs_sink_path_b"), expr_ident("fs_sink_caps_b")),
    );
    let s3 = l4(expr_ident("if"), call("result_i32.is_ok", "fs_open"), expr_int(0), failed);
    let s4 = let_e("fs_sink_h", l3(expr_ident("result_i32.unwrap_or"), expr_ident("fs_open"), expr_int(-1)));
    let s5 = let_i32("fs_sink_flushes", 0);
    let s6 = let_i32("fs_sink_max_flushes", cfg.max_flushes);
    let s7 = let_e("fs_sink_buf", l2(expr_ident("vec_u8.with_capacity"), expr_int(cfg.buf_cap_bytes)));
    let ghost want = seq![s0@, s1@, s2@, s3@, s4@, s5@, s6@, s7@];
    push_item(v, s0);
    push_item(v, s1);
    push_item(v, s2);
    push_item(v, s3);
    push_item(v, s4);
    push_item(v, s5);
    push_item(v, s6);
    push_item(v, s7);
    assert(view_exprs(v@) =~= before + want);
}

/// Appends the sink's state to the helper's items.
#[verifier::rlimit(40)]
pub fn gen_sink_init_v1(items: &mut Vec<Expr>, base: &SinkBaseV1, max_out_bytes: i32)
    requires
        sink_init_fits(*base, max_out_bytes),
    ensures
        view_exprs(final(items)@) == view_exprs(old(items)@) + sink_init_v(*base, max_out_bytes),
{
    let ghost before = view_exprs(items@);
    match base {
        SinkBaseV1::CollectBytes | SinkBaseV1::WorldFsWriteFile { .. } => {
            push_item(items, let_e("sink_vec", l2(expr_ident("vec_u8.with_capacity"), expr_int(max_out_bytes))));
        },
        SinkBaseV1::HashFnv1a32 => {
            push_item(items, let_i32("hash", FNV1A32_OFFSET_BASIS));
        },
        SinkBaseV1::Null => {},
        SinkBaseV1::NetTcpWriteStreamHandle { stream_handle_param, caps_param, cfg } => {
            push_item(items, let_e("net_sink_h", param_ident(*stream_handle_param)));
            push_item(items, let_i32("net_sink_owned", 0));
            let ghost h = view_exprs(items@);
            push_caps(items, *caps_param);
            emit_net_sink_validate_caps(items);
            emit_net_sink_init_limits_and_buffer(items, max_out_bytes, *cfg);
            assert(h =~= before + seq![
                let_v("net_sink_h"@, param_v(*stream_handle_param as int)),
                lv("net_sink_owned"@, 0),
            ]);
        },
        SinkBaseV1::NetTcpConnectWrite { addr_param, caps_param, cfg } => {
            push_item(items, let_e("net_sink_addr_b", param_ident(*addr_param)));
            push_item(items, let_i32("net_sink_owned", 1));
            push_item(items, let_e("net_sink_addr", call("bytes.view", "net_sink_addr_b")));
            let ghost h = view_exprs(items@);
            push_caps(items, *caps_param);
            emit_net_sink_validate_caps(items);
            push_connect(items);
            emit_net_sink_init_limits_and_buffer(items, max_out_bytes, *cfg);
            assert(h =~= before + seq![
                let_v("net_sink_addr_b"@, param_v(*addr_param as int)),
                lv("net_sink_owned"@, 1),
                let_v("net_sink_addr"@, call_v("bytes.view"@, "net_sink_addr_b"@)),
            ]);
        },
        SinkBaseV1::WorldFsWriteStream { path_param, caps_param, cfg } => {
            push_fs_open(items, *path_param, *caps_param, *cfg);
        },
        SinkBaseV1::WorldFsWriteStreamHashFnv1a32 { path_param, caps_param, cfg } => {
            push_item(items, let_i32("hash", FNV1A32_OFFSET_BASIS));
            push_fs_open(items, *path_param, *caps_param, *cfg);
        },
    }
    assert(view_exprs(items@) =~= before + sink_init_v(*base, max_out_bytes));
}

} // verus!

//! Handing one item to the sink in a pipe helper: the output budgets are
//! charged first (items, then bytes, with the 4-byte length header when
//! the sink frames its items), then the item, behind its header, goes to
//! the sink.

use vstd::prelude::*;
use crate::ast::{view_exprs, Expr, ExprV};
use crate::pipe_docs::{
    empty_payload_v, err_doc_const, err_doc_v, expr_ident, expr_int, expr_list, fnv1a_update_v, gen_fnv1a_update,
    id_v, int_v, l2, l3, l4, let_e, let_v, list_v, push_item,
};
use crate::pipe_fs_sink::{fs_push_v, gen_fs_sink_push};
use crate::pipe_net_sink::{gen_net_sink_push, net_push_v};
use crate::stream_pipe::{SinkBaseV1, SinkShapeV1};

verus! {

pub const E_BUDGET_OUT_BYTES: i32 = 3;

pub const E_BUDGET_ITEMS: i32 = 4;

pub const E_FRAME_TOO_LARGE: i32 = 10;

/// `(if cond (return <error code/msg>) 0)`.
pub open spec fn guard_v(cond: ExprV, code: i32, msg: Seq<char>) -> ExprV {
    list_v(seq![id_v("if"@), cond, list_v(seq![id_v("return"@), err_doc_v(int_v(code), msg, empty_payload_v())]), int_v(0)])
}

/// The budget charges: the item count against `max_items`, then the bytes
/// (the item's length, plus 4 when framed) against `max_out_bytes`; a framed
/// item whose length does not fit a frame is refused first.
pub open spec fn charge_v(item: ExprV, framed: bool, max_items: i32, max_out_bytes: i32) -> Seq<ExprV> {
    seq![let_v("emit_len"@, list_v(seq![id_v("view.len"@), item]))] + (if framed {
        seq![guard_v(list_v(seq![id_v("<"@), id_v("emit_len"@), int_v(0)]), E_FRAME_TOO_LARGE, "stream:frame_too_large"@)]
    } else {
        Seq::empty()
    }) + seq![
        let_v("new_items_out"@, list_v(seq![id_v("+"@), id_v("items_out"@), int_v(1)])),
        guard_v(
            list_v(seq![id_v(">u"@), id_v("new_items_out"@), int_v(max_items)]),
            E_BUDGET_ITEMS,
            "stream:budget_items"@,
        ),
        list_v(seq![id_v("set"@), id_v("items_out"@), id_v("new_items_out"@)]),
        let_v(
            "new_bytes_out"@,
            list_v(
                seq![
                    id_v("+"@),
                    id_v("bytes_out"@),
                    if framed {
                        list_v(seq![id_v("+"@), int_v(4), id_v("emit_len"@)])
                    } else {
                        id_v("emit_len"@)
                    },
                ],
            ),
        ),
        guard_v(
            list_v(seq![id_v(">u"@), id_v("new_bytes_out"@), int_v(max_out_bytes)]),
            E_BUDGET_OUT_BYTES,
            "stream:budget_out_bytes"@,
        ),
        list_v(seq![id_v("set"@), id_v("bytes_out"@), id_v("new_bytes_out"@)]),
    ]
}

pub open spec fn hdr_v() -> ExprV {
    let_v("hdr"@, list_v(seq![id_v("codec.write_u32_le"@), id_v("emit_len"@)]))
}

pub open spec fn hdr_view_v() -> ExprV {
    list_v(seq![id_v("bytes.view"@), id_v("hdr"@)])
}

/// What the sink does with the item (after its header when framed): append
/// to the collected bytes, fold into the hash, nothing, or push into the
/// file or network stream.
pub open spec fn feed_v(item: ExprV, sink: SinkShapeV1) -> Seq<ExprV> {
    let framed = sink.framing_u32frames;
    match sink.base {
        SinkBaseV1::CollectBytes | SinkBaseV1::WorldFsWriteFile { .. } => (if framed {
            seq![
                hdr_v(),
                list_v(
                    seq![
                        id_v("set"@),
                        id_v("sink_vec"@),
                        list_v(seq![id_v("vec_u8.extend_bytes"@), id_v("sink_vec"@), id_v("hdr"@)]),
                    ],
                ),
            ]
        } else {
            Seq::empty()
        }) + seq![
            list_v(
                seq![
                    id_v("set"@),
                    id_v("sink_vec"@),
                    list_v(
                        seq![
                            id_v("vec_u8.extend_bytes_range"@),
                            id_v("sink_vec"@),
                            item,
                            int_v(0),
                            id_v("emit_len"@),
                        ],
                    ),
                ],
            ),
        ],
        SinkBaseV1::HashFnv1a32 => (if framed {
            seq![hdr_v(), fnv1a_update_v(hdr_view_v(), "hash"@)]
        } else {
            Seq::empty()
        }) + seq![fnv1a_update_v(item, "hash"@)],
        SinkBaseV1::Null => Seq::empty(),
        SinkBaseV1::WorldFsWriteStream { cfg, .. } => (if framed {
            seq![hdr_v(), fs_push_v(hdr_view_v(), int_v(4), cfg, false)]
        } else {
            Seq::empty()
        }) + seq![fs_push_v(item, id_v("emit_len"@), cfg, false)],
        SinkBaseV1::WorldFsWriteStreamHashFnv1a32 { cfg, .. } => (if framed {
            seq![hdr_v(), fs_push_v(hdr_view_v(), int_v(4), cfg, true)]
        } else {
            Seq::empty()
        }) + seq![fs_push_v(item, id_v("emit_len"@), cfg, true)],
        SinkBaseV1::NetTcpWriteStreamHandle { cfg, .. } | SinkBaseV1::NetTcpConnectWrite { cfg, .. } => (if framed {
            seq![hdr_v(), net_push_v(hdr_view_v(), int_v(4), cfg)]
        } else {
            Seq::empty()
        }) + seq![net_push_v(item, id_v("emit_len"@), cfg)],
    }
}

/// The code handing `item` to the sink.
pub open spec fn emit_item_v(item: ExprV, sink: SinkShapeV1, max_items: i32, max_out_bytes: i32) -> ExprV {
    list_v(
        seq![id_v("begin"@)] + charge_v(item, sink.framing_u32frames, max_items, max_out_bytes) + feed_v(item, sink)
            + seq![int_v(0)],
    )
}

fn guard(cond: Expr, code: i32, msg: &str) -> (r: Expr)
    ensures
        r@ == guard_v(cond@, code, msg@),
{
    l4(expr_ident("if"), cond, l2(expr_ident("return"), err_doc_const(code, msg)), expr_int(0))
}

fn hdr() -> (r: Expr)
    ensures
        r@ == hdr_v(),
{
    let_e("hdr", l2(expr_ident("codec.write_u32_le"), expr_ident("emit_len")))
}

fn hdr_view() -> (r: Expr)
    ensures
        r@ == hdr_view_v(),
{
    l2(expr_ident("bytes.view"), expr_ident("hdr"))
}

fn push_charge(v: &mut Vec<Expr>, item: &Expr, framed: bool, max_items: i32, max_out_bytes: i32)
    ensures
        view_exprs(final(v)@) == view_exprs(old(v)@) + charge_v(item@, framed, max_items, max_out_bytes),
{
    let ghost before = view_exprs(v@);
    push_item(v, let_e("emit_len", l2(expr_ident("view.len"), item.copy_expr())));
    if framed {
        push_item(
            v,
            guard(
                l3(expr_ident("<"), expr_ident("emit_len"), expr_int(0)),
                E_FRAME_TOO_LARGE,
                "stream:frame_too_large",
            ),
        );
    }
    let ghost mid = view_exprs(v@);
    let a = let_e("new_items_out", l3(expr_ident("+"), expr_ident("items_out"), expr_int(1)));
    let b = guard(
        l3(expr_ident(">u"), expr_ident("new_items_out"), expr_int(max_items)),
        E_BUDGET_ITEMS,
        "stream:budget_items",
    );
    let c = l3(expr_ident("set"), expr_ident("items_out"), expr_ident("new_items_out"));
    let inc = if framed {
        l3(expr_ident("+"), expr_int(4), expr_ident("emit_len"))
    } else {
        expr_ident("emit_len")
    };
    let d = let_e("new_bytes_out", l3(expr_ident("+"), expr_ident("bytes_out"), inc));
    let e = guard(
        l3(expr_ident(">u"), expr_ident("new_bytes_out"), expr_int(max_out_bytes)),
        E_BUDGET_OUT_BYTES,
        "stream:budget_out_bytes",
    );
    let f = l3(expr_ident("set"), expr_ident("bytes_out"), expr_ident("new_bytes_out"));
    let ghost tail = seq![a@, b@, c@, d@, e@, f@];
    push_item(v, a);
    push_item(v, b);
    push_item(v, c);
    push_item(v, d);
    push_item(v, e);
    push_item(v, f);
    assert(view_exprs(v@) =~= mid + tail);
    assert(view_exprs(v@) =~= before + charge_v(item@, framed, max_items, max_out_bytes));
}

fn extend_range_sink_vec(item: &Expr) -> (r: Expr)
    ensures
        r@ == list_v(
            seq![
                id_v("set"@),
                id_v("sink_vec"@),
                list_v(seq![id_v("vec_u8.extend_bytes_range"@), id_v("sink_vec"@), item@, int_v(0), id_v("emit_len"@)]),
            ],
        ),
{
    let a = expr_ident("vec_u8.extend_bytes_range");
    let b = expr_ident("sink_vec");
    let c = item.copy_expr();
    let d = expr_int(0);
    let e = expr_ident("emit_len");
    let ghost want = seq![a@, b@, c@, d@, e@];
    let mut w: Vec<Expr> = Vec::new();
    assert(view_exprs(w@) =~= Seq::<ExprV>::empty());
    push_item(&mut w, a);
    push_item(&mut w, b);
    push_item(&mut w, c);
    push_item(&mut w, d);
    push_item(&mut w, e);
    assert(view_exprs(w@) =~= want);
    l3(expr_ident("set"), expr_ident("sink_vec"), expr_list(w))
}

fn push_framed(v: &mut Vec<Expr>, framed: bool, second: Expr, last: Expr)
    ensures
        view_exprs(final(v)@) == view_exprs(old(v)@) + (if framed {
            seq![hdr_v(), second@]
        } else {
            Seq::empty()
        }) + seq![last@],
{
    let ghost before = view_exprs(v@);
    let ghost s2 = second@;
    if framed {
        push_item(v, hdr());
        push_item(v, second);
    }
    push_item(v, last);
    assert(view_exprs(v@) =~= before + (if framed {
        seq![hdr_v(), s2]
    } else {
        Seq::empty()
    }) + seq![last@]);
}

#[verifier::rlimit(40)]
fn push_feed(v: &mut Vec<Expr>, item: &Expr, sink: &SinkShapeV1)
    ensures
        view_exprs(final(v)@) == view_exprs(old(v)@) + feed_v(item@, *sink),
{
    let ghost before = view_exprs(v@);
    let framed = sink.framing_u32frames;
    match &sink.base {
        SinkBaseV1::CollectBytes | SinkBaseV1::WorldFsWriteFile { .. } => {
            let second = l3(
                expr_ident("set"),
                expr_ident("sink_vec"),
                l3(expr_ident("vec_u8.extend_bytes"), expr_ident("sink_vec"), expr_ident("hdr")),
            );
            push_framed(v, framed, second, extend_range_sink_vec(item));
        },
        SinkBaseV1::HashFnv1a32 => {
            push_framed(v, framed, gen_fnv1a_update(&hdr_view(), "hash"), gen_fnv1a_update(item, "hash"));
        },
        SinkBaseV1::Null => {
            assert(view_exprs(v@) =~= before + feed_v(item@, *sink));
        },
        SinkBaseV1::WorldFsWriteStream { cfg, .. } => {
            push_framed(
                v,
                framed,
                gen_fs_sink_push(&hdr_view(), &expr_int(4), *cfg, false),
                gen_fs_sink_push(item, &expr_ident("emit_len"), *cfg, false),
            );
        },
        SinkBaseV1::WorldFsWriteStreamHashFnv1a32 { cfg, .. } => {
            push_framed(
                v,
                framed,
                gen_fs_sink_push(&hdr_view(), &expr_int(4), *cfg, true),
                gen_fs_sink_push(item, &expr_ident("emit_len"), *cfg, true),
            );
        },
        SinkBaseV1::NetTcpWriteStreamHandle { cfg, .. } | SinkBaseV1::NetTcpConnectWrite { cfg, .. } => {
            push_framed(
                v,
                framed,
                gen_net_sink_push(&hdr_view(), &expr_int(4), *cfg),
                gen_net_sink_push(item, &expr_ident("emit_len"), *cfg),
            );
        },
    }
}

/// The code handing `item` to the sink `sink`, under the item and byte
/// budgets of the pipe.
pub fn emit_item(item: &Expr, sink: &SinkShapeV1, max_items: i32, max_out_bytes: i32) -> (r: Expr)
    ensures
        r@ == emit_item_v(item@, *sink, max_items, max_out_bytes),
{
    let mut v: Vec<Expr> = Vec::new();
    assert(view_exprs(v@) =~= Seq::<ExprV>::empty());
    push_item(&mut v, expr_ident("begin"));
    push_charge(&mut v, item, sink.framing_u32frames, max_items, max_out_bytes);
    push_feed(&mut v, item, sink);
    push_item(&mut v, expr_int(0));
    assert(view_exprs(v@) =~= seq![id_v("begin"@)] + charge_v(
        item@,
        sink.framing_u32frames,
        max_items,
        max_out_bytes,
    ) + feed_v(item@, *sink) + seq![int_v(0)]);
    expr_list(v)
}

} // verus!

//! The opening bindings of a pipe helper: its counters, and the state each
//! stage of its plan needs (brand check counters, scratch buffers, take
//! counters, plugin state and scratch buffers, plugin configuration bytes).

use vstd::prelude::*;
use crate::ast::{lemma_view_exprs, view_exprs, Expr, ExprV};
use crate::compile::{CompileErrorKind, CompilerError};
use crate::pipe_docs::{
    call1_v, empty_payload_v, err_doc_const, err_doc_v, expr_ident, expr_int, expr_list, extend_u32, extend_u32_v,
    id_v, int_v, l2, l3, let_i32, let_v, list_v, param_ident, set_u32_le_v, vec_u8_set_u32_le,
};
use crate::stream_pipe::ParMapStreamCfgV1;
use crate::pipe_stages::{plans_view, CfgWordV1, PluginCfgV, PluginCfgV1, StagePlanV, StagePlanV1};
use crate::stream_plugins::StreamPluginRegistryV1;
use crate::text::{concat_str, dec, u64_to_dec};

verus! {

/// The error code of an invalid configuration.
pub const E_CFG_INVALID: i32 = 1;

/// A per-stage name: `prefix` followed by the stage's index.
pub open spec fn stage_name(prefix: Seq<char>, i: int) -> Seq<char> {
    prefix + dec(i as nat)
}

pub open spec fn let0_v(name: Seq<char>) -> ExprV {
    list_v(seq![id_v("let"@), id_v(name), int_v(0)])
}

pub open spec fn param_v(idx: int) -> ExprV {
    id_v("p"@ + dec(idx as nat))
}

/// The bindings contributed by the stages `0..n` of `ps`, stage by stage.
pub open spec fn seg(ps: Seq<StagePlanV>, n: int, f: spec_fn(int, StagePlanV) -> Seq<ExprV>) -> Seq<ExprV>
    decreases n,
{
    if n <= 0 {
        Seq::empty()
    } else {
        seg(ps, n - 1, f) + f(n - 1, ps[n - 1])
    }
}

/// A brand check stage counts the items it checked.
pub open spec fn rb_v(i: int, p: StagePlanV) -> Seq<ExprV> {
    if p is RequireBrand {
        seq![let0_v(stage_name("req_brand_item_idx_"@, i))]
    } else {
        Seq::empty()
    }
}

/// A `map_in_place_buf` stage gets its scratch buffer; a capacity that is
/// not positive makes the helper return a configuration error.
pub open spec fn mip_v(i: int, p: StagePlanV) -> Seq<ExprV> {
    match p {
        StagePlanV::MapInPlace { scratch_cap_bytes } => if scratch_cap_bytes <= 0 {
            seq![
                list_v(
                    seq![
                        id_v("return"@),
                        err_doc_v(int_v(E_CFG_INVALID), "stream:scratch_cap_bytes_invalid"@, empty_payload_v()),
                    ],
                ),
            ]
        } else {
            seq![
                let_v(
                    stage_name("scratch_"@, i),
                    list_v(seq![id_v("scratch_u8_fixed_v1.new"@), int_v(scratch_cap_bytes)]),
                ),
            ]
        },
        _ => Seq::empty(),
    }
}

/// A take stage counts down from its parameter, or from 0 if negative.
pub open spec fn take_v(i: int, p: StagePlanV) -> Seq<ExprV> {
    match p {
        StagePlanV::Take { n_param } => seq![
            let_v(
                stage_name("take_rem_"@, i),
                list_v(
                    seq![
                        id_v("if"@),
                        list_v(seq![id_v("<"@), param_v(n_param as int), int_v(0)]),
                        int_v(0),
                        param_v(n_param as int),
                    ],
                ),
            ),
        ],
        _ => Seq::empty(),
    }
}

/// A `u32` size as an `i32`, saturating.
pub open spec fn sat_i32(n: u32) -> i32 {
    if n <= i32::MAX {
        n as i32
    } else {
        i32::MAX
    }
}

pub open spec fn alloc_aligned_v(name: Seq<char>, len: i32) -> ExprV {
    let_v(name, list_v(seq![id_v("__internal.bytes.alloc_aligned_v1"@), int_v(len), int_v(16)]))
}

/// The plugin budgets of the plugins in the registry, by place.
pub open spec fn budgets_of(reg: StreamPluginRegistryV1, at: int) -> (u32, u32) {
    (reg.by_id@[at].1.budgets.state_bytes, reg.by_id@[at].1.budgets.scratch_bytes)
}

/// A plugin stage gets 16-byte aligned state and scratch buffers of its
/// plugin's budgeted sizes.
pub open spec fn alloc_v(reg: StreamPluginRegistryV1) -> spec_fn(int, StagePlanV) -> Seq<ExprV> {
    |i: int, p: StagePlanV|
        match p {
            StagePlanV::Plugin { plugin_at, .. } => seq![
                alloc_aligned_v(stage_name("xf_plugin_state_"@, i), sat_i32(budgets_of(reg, plugin_at).0)),
                alloc_aligned_v(stage_name("xf_plugin_scratch_"@, i), sat_i32(budgets_of(reg, plugin_at).1)),
            ],
            _ => Seq::empty(),
        }
}

pub open spec fn word_v(w: CfgWordV1) -> ExprV {
    match w {
        CfgWordV1::Param(p) => param_v(p as int),
        CfgWordV1::Int(v) => int_v(v),
    }
}

/// The configuration bytes of stage `i` built from words: each word
/// appended as a little-endian `u32`.
pub open spec fn cfg_bytes_v(i: int, w: Seq<CfgWordV1>) -> ExprV {
    let v = stage_name("xf_cfg_"@, i);
    let cap: i32 = if w.len() * 4 <= i32::MAX {
        (w.len() * 4) as i32
    } else {
        i32::MAX
    };
    list_v(
        seq![id_v("begin"@), let_v(v, list_v(seq![id_v("vec_u8.with_capacity"@), int_v(cap)]))] + Seq::new(
            w.len(),
            |k: int| extend_u32_v(v, word_v(w[k])),
        ) + seq![call1_v("vec_u8.into_bytes"@, v)],
    )
}

/// A plugin stage whose configuration is not a pipe parameter binds its
/// configuration bytes.
pub open spec fn cfg_v(i: int, p: StagePlanV) -> Seq<ExprV> {
    match p {
        StagePlanV::Plugin { cfg, .. } => match cfg {
            PluginCfgV::Words(w) => seq![let_v(stage_name("xf_cfg_b_"@, i), cfg_bytes_v(i, w))],
            PluginCfgV::Empty => seq![let_v(stage_name("xf_cfg_b_"@, i), empty_payload_v())],
            PluginCfgV::FromParam(_) => Seq::empty(),
        },
        _ => Seq::empty(),
    }
}

pub open spec fn rb_f() -> spec_fn(int, StagePlanV) -> Seq<ExprV> {
    |i: int, p: StagePlanV| rb_v(i, p)
}

pub open spec fn mip_f() -> spec_fn(int, StagePlanV) -> Seq<ExprV> {
    |i: int, p: StagePlanV| mip_v(i, p)
}

pub open spec fn take_f() -> spec_fn(int, StagePlanV) -> Seq<ExprV> {
    |i: int, p: StagePlanV| take_v(i, p)
}

pub open spec fn cfg_f() -> spec_fn(int, StagePlanV) -> Seq<ExprV> {
    |i: int, p: StagePlanV| cfg_v(i, p)
}

pub open spec fn has_take_stage(ps: Seq<StagePlanV>) -> bool {
    exists|i: int| 0 <= i < ps.len() && #[trigger] ps[i] is Take
}

/// The helper's opening items: `begin`, the four counters, `stop` when a
/// stage can stop the pipe early, then each kind of stage state in stage
/// order.
pub open spec fn prelude_v(ps: Seq<StagePlanV>, reg: StreamPluginRegistryV1) -> Seq<ExprV> {
    let n = ps.len() as int;
    seq![
        id_v("begin"@),
        let0_v("bytes_in"@),
        let0_v("bytes_out"@),
        let0_v("items_in"@),
        let0_v("items_out"@),
    ] + (if has_take_stage(ps) {
        seq![let0_v("stop"@)]
    } else {
        Seq::empty()
    }) + seg(ps, n, rb_f()) + seg(ps, n, mip_f()) + seg(ps, n, take_f()) + seg(ps, n, alloc_v(reg)) + seg(
        ps,
        n,
        cfg_f(),
    )
}

/// Every plugin stage of the plan names a plugin of the registry.
pub open spec fn plans_fit(ps: Seq<StagePlanV>, reg: StreamPluginRegistryV1) -> bool {
    forall|i: int|
        0 <= i < ps.len() ==> (#[trigger] ps[i] matches StagePlanV::Plugin { plugin_at, .. } ==> 0 <= plugin_at
            < reg.by_id@.len())
}

fn push_item(v: &mut Vec<Expr>, e: Expr)
    ensures
        view_exprs(final(v)@) == view_exprs(old(v)@).push(e@),
{
    let ghost before = v@;
    v.push(e);
    proof {
        lemma_view_exprs(before);
        lemma_view_exprs(v@);
        assert(view_exprs(v@) =~= view_exprs(before).push(e@));
    }
}

fn stage_name_exec(prefix: &str, i: usize) -> (r: String)
    ensures
        r@ == stage_name(prefix@, i as int),
{
    concat_str(prefix, u64_to_dec(i as u64).as_str())
}

fn let0(name: &str) -> (r: Expr)
    ensures
        r@ == let0_v(name@),
{
    let_i32(name, 0)
}

fn let_named(name: &str, value: Expr) -> (r: Expr)
    ensures
        r@ == let_v(name@, value@),
{
    let mut v: Vec<Expr> = Vec::new();
    assert(view_exprs(v@) =~= Seq::<ExprV>::empty());
    let a = expr_ident("let");
    let b = expr_ident(name);
    let ghost want = seq![a@, b@, value@];
    push_item(&mut v, a);
    push_item(&mut v, b);
    push_item(&mut v, value);
    assert(view_exprs(v@) =~= want);
    expr_list(v)
}

fn list_of(items: Vec<Expr>, want: Ghost<Seq<ExprV>>) -> (r: Expr)
    requires
        view_exprs(items@) == want@,
    ensures
        r@ == list_v(want@),
{
    expr_list(items)
}

fn pair(a: Expr, b: Expr) -> (r: Expr)
    ensures
        r@ == list_v(seq![a@, b@]),
{
    let mut v: Vec<Expr> = Vec::new();
    assert(view_exprs(v@) =~= Seq::<ExprV>::empty());
    let ghost want = seq![a@, b@];
    push_item(&mut v, a);
    push_item(&mut v, b);
    assert(view_exprs(v@) =~= want);
    expr_list(v)
}

fn triple(a: Expr, b: Expr, c: Expr) -> (r: Expr)
    ensures
        r@ == list_v(seq![a@, b@, c@]),
{
    let mut v: Vec<Expr> = Vec::new();
    assert(view_exprs(v@) =~= Seq::<ExprV>::empty());
    let ghost want = seq![a@, b@, c@];
    push_item(&mut v, a);
    push_item(&mut v, b);
    push_item(&mut v, c);
    assert(view_exprs(v@) =~= want);
    expr_list(v)
}

fn rb_items(i: usize, p: &StagePlanV1) -> (r: Vec<Expr>)
    ensures
        view_exprs(r@) == rb_v(i as int, p@),
{
    let mut out: Vec<Expr> = Vec::new();
    assert(view_exprs(out@) =~= Seq::<ExprV>::empty());
    if let StagePlanV1::RequireBrand = p {
        let n = stage_name_exec("req_brand_item_idx_", i);
        push_item(&mut out, let0(n.as_str()));
        assert(view_exprs(out@) =~= rb_v(i as int, p@));
    }
    out
}

fn mip_items(i: usize, p: &StagePlanV1) -> (r: Vec<Expr>)
    ensures
        view_exprs(r@) == mip_v(i as int, p@),
{
    let mut out: Vec<Expr> = Vec::new();
    assert(view_exprs(out@) =~= Seq::<ExprV>::empty());
    if let StagePlanV1::MapInPlace { scratch_cap_bytes } = p {
        if *scratch_cap_bytes <= 0 {
            let e = pair(expr_ident("return"), err_doc_const(E_CFG_INVALID, "stream:scratch_cap_bytes_invalid"));
            push_item(&mut out, e);
        } else {
            let n = stage_name_exec("scratch_", i);
            let e = let_named(n.as_str(), pair(expr_ident("scratch_u8_fixed_v1.new"), expr_int(*scratch_cap_bytes)));
            push_item(&mut out, e);
        }
        assert(view_exprs(out@) =~= mip_v(i as int, p@));
    }
    out
}

fn take_items(i: usize, p: &StagePlanV1) -> (r: Vec<Expr>)
    ensures
        view_exprs(r@) == take_v(i as int, p@),
{
    let mut out: Vec<Expr> = Vec::new();
    assert(view_exprs(out@) =~= Seq::<ExprV>::empty());
    if let StagePlanV1::Take { n_param } = p {
        let n = stage_name_exec("take_rem_", i);
        let cond = triple(expr_ident("<"), param_ident(*n_param), expr_int(0));
        let mut v: Vec<Expr> = Vec::new();
        assert(view_exprs(v@) =~= Seq::<ExprV>::empty());
        let a = expr_ident("if");
        let c = expr_int(0);
        let d = param_ident(*n_param);
        let ghost want = seq![a@, cond@, c@, d@];
        push_item(&mut v, a);
        push_item(&mut v, cond);
        push_item(&mut v, c);
        push_item(&mut v, d);
        assert(view_exprs(v@) =~= want);
        let e = let_named(n.as_str(), list_of(v, Ghost(want)));
        push_item(&mut out, e);
        assert(view_exprs(out@) =~= take_v(i as int, p@));
    }
    out
}

fn sat_i32_exec(n: u32) -> (r: i32)
    ensures
        r == sat_i32(n),
{
    if n <= 0x7fff_ffffu32 {
        n as i32
    } else {
        i32::MAX
    }
}

fn alloc_aligned(name: &str, len: i32) -> (r: Expr)
    ensures
        r@ == alloc_aligned_v(name@, len),
{
    let mut v: Vec<Expr> = Vec::new();
    assert(view_exprs(v@) =~= Seq::<ExprV>::empty());
    let a = expr_ident("__internal.bytes.alloc_aligned_v1");
    let b = expr_int(len);
    let c = expr_int(16);
    let ghost want = seq![a@, b@, c@];
    push_item(&mut v, a);
    push_item(&mut v, b);
    push_item(&mut v, c);
    assert(view_exprs(v@) =~= want);
    let_named(name, list_of(v, Ghost(want)))
}

fn alloc_items(i: usize, p: &StagePlanV1, reg: &StreamPluginRegistryV1) -> (r: Vec<Expr>)
    requires
        p@ matches StagePlanV::Plugin { plugin_at, .. } ==> 0 <= plugin_at < reg.by_id@.len(),
    ensures
        view_exprs(r@) == (alloc_v(*reg))(i as int, p@),
{
    let mut out: Vec<Expr> = Vec::new();
    assert(view_exprs(out@) =~= Seq::<ExprV>::empty());
    if let StagePlanV1::Plugin { plugin_at, .. } = p {
        let b = &reg.by_id[*plugin_at].1.budgets;
        let st = stage_name_exec("xf_plugin_state_", i);
        let sc = stage_name_exec("xf_plugin_scratch_", i);
        push_item(&mut out, alloc_aligned(st.as_str(), sat_i32_exec(b.state_bytes)));
        push_item(&mut out, alloc_aligned(sc.as_str(), sat_i32_exec(b.scratch_bytes)));
        assert(view_exprs(out@) =~= (alloc_v(*reg))(i as int, p@));
    }
    out
}

fn word_expr(w: CfgWordV1) -> (r: Expr)
    ensures
        r@ == word_v(w),
{
    match w {
        CfgWordV1::Param(p) => param_ident(p),
        CfgWordV1::Int(v) => expr_int(v),
    }
}

fn cfg_bytes(i: usize, w: &Vec<CfgWordV1>) -> (r: Expr)
    ensures
        r@ == cfg_bytes_v(i as int, w@),
{
    let v = stage_name_exec("xf_cfg_", i);
    let cap: i32 = if w.len() <= 0x1fff_ffffusize {
        (w.len() * 4) as i32
    } else {
        i32::MAX
    };
    assert(cap == (if w@.len() * 4 <= i32::MAX {
        (w@.len() * 4) as i32
    } else {
        i32::MAX
    }));
    let mut items: Vec<Expr> = Vec::new();
    assert(view_exprs(items@) =~= Seq::<ExprV>::empty());
    push_item(&mut items, expr_ident("begin"));
    push_item(&mut items, let_named(v.as_str(), pair(expr_ident("vec_u8.with_capacity"), expr_int(cap))));
    let ghost head = view_exprs(items@);
    let mut k: usize = 0;
    while k < w.len()
        invariant
            k <= w@.len(),
            v@ == stage_name("xf_cfg_"@, i as int),
            view_exprs(items@) == head + Seq::new(k as nat, |j: int| extend_u32_v(v@, word_v(w@[j]))),
        decreases w.len() - k,
    {
        let ghost before = view_exprs(items@);
        push_item(&mut items, extend_u32(v.as_str(), word_expr(w[k])));
        proof {
            assert(Seq::new((k + 1) as nat, |j: int| extend_u32_v(v@, word_v(w@[j]))) =~= Seq::new(
                k as nat,
                |j: int| extend_u32_v(v@, word_v(w@[j])),
            ).push(extend_u32_v(v@, word_v(w@[k as int]))));
            assert(view_exprs(items@) =~= head + Seq::new((k + 1) as nat, |j: int| extend_u32_v(v@, word_v(w@[j]))));
        }
        k = k + 1;
    }
    let ghost body = view_exprs(items@);
    push_item(&mut items, pair(expr_ident("vec_u8.into_bytes"), expr_ident(v.as_str())));
    proof {
        assert(head =~= seq![
            id_v("begin"@),
            let_v(v@, list_v(seq![id_v("vec_u8.with_capacity"@), int_v(cap)])),
        ]);
        assert(view_exprs(items@) =~= seq![
            id_v("begin"@),
            let_v(v@, list_v(seq![id_v("vec_u8.with_capacity"@), int_v(cap)])),
        ] + Seq::new(w@.len(), |j: int| extend_u32_v(v@, word_v(w@[j]))) + seq![call1_v("vec_u8.into_bytes"@, v@)]);
    }
    expr_list(items)
}

fn cfg_items(i: usize, p: &StagePlanV1) -> (r: Vec<Expr>)
    ensures
        view_exprs(r@) == cfg_v(i as int, p@),
{
    let mut out: Vec<Expr> = Vec::new();
    assert(view_exprs(out@) =~= Seq::<ExprV>::empty());
    if let StagePlanV1::Plugin { cfg, .. } = p {
        let n = stage_name_exec("xf_cfg_b_", i);
        match cfg {
            PluginCfgV1::Words(w) => {
                push_item(&mut out, let_named(n.as_str(), cfg_bytes(i, w)));
            },
            PluginCfgV1::Empty => {
                push_item(&mut out, let_named(n.as_str(), pair(expr_ident("bytes.alloc"), expr_int(0))));
            },
            PluginCfgV1::FromParam(_) => {},
        }
        assert(view_exprs(out@) =~= cfg_v(i as int, p@));
    }
    out
}

fn append_items(out: &mut Vec<Expr>, more: Vec<Expr>)
    ensures
        view_exprs(final(out)@) == view_exprs(old(out)@) + view_exprs(more@),
{
    let ghost a = old(out)@;
    let mut more = more;
    let ghost b = more@;
    out.append(&mut more);
    proof {
        lemma_view_exprs(a);
        lemma_view_exprs(b);
        lemma_view_exprs(out@);
        assert(out@ =~= a + b);
        assert(view_exprs(out@) =~= view_exprs(a) + view_exprs(b));
    }
}

/// The opening items of the helper for the stage plans `plans`, whose
/// plugin stages name plugins of `registry`.
#[verifier::rlimit(40)]
pub fn gen_pipe_prelude_v1(plans: &Vec<StagePlanV1>, registry: &StreamPluginRegistryV1) -> (r: Vec<Expr>)
    requires
        plans_fit(plans_view(plans@), *registry),
    ensures
        view_exprs(r@) == prelude_v(plans_view(plans@), *registry),
{
    let ghost ps = plans_view(plans@);
    let ghost n = ps.len() as int;
    let mut items: Vec<Expr> = Vec::new();
    assert(view_exprs(items@) =~= Seq::<ExprV>::empty());
    push_item(&mut items, expr_ident("begin"));
    push_item(&mut items, let0("bytes_in"));
    push_item(&mut items, let0("bytes_out"));
    push_item(&mut items, let0("items_in"));
    push_item(&mut items, let0("items_out"));
    let mut has_take = false;
    let mut i: usize = 0;
    while i < plans.len()
        invariant
            i <= plans@.len(),
            ps == plans_view(plans@),
            has_take == exists|k: int| 0 <= k < i && #[trigger] ps[k] is Take,
        decreases plans.len() - i,
    {
        if let StagePlanV1::Take { .. } = &plans[i] {
            assert(ps[i as int] is Take);
            has_take = true;
        }
        i = i + 1;
    }
    if has_take {
        push_item(&mut items, let0("stop"));
    }
    let ghost acc0 = view_exprs(items@);
    assert(acc0 =~= seq![
        id_v("begin"@),
        let0_v("bytes_in"@),
        let0_v("bytes_out"@),
        let0_v("items_in"@),
        let0_v("items_out"@),
    ] + (if has_take_stage(ps) {
        seq![let0_v("stop"@)]
    } else {
        Seq::empty()
    }));
    let ghost f_rb = rb_f();
    let ghost f_mip = mip_f();
    let ghost f_take = take_f();
    let ghost f_alloc = alloc_v(*registry);
    let ghost f_cfg = cfg_f();
    // Brand check counters.
    let mut i: usize = 0;
    assert(acc0 + seg(ps, 0, f_rb) =~= acc0);
    while i < plans.len()
        invariant
            i <= plans@.len(),
            ps == plans_view(plans@),
            f_rb == rb_f(),
            view_exprs(items@) == acc0 + seg(ps, i as int, f_rb),
        decreases plans.len() - i,
    {
        let more = rb_items(i, &plans[i]);
        append_items(&mut items, more);
        assert(acc0 + seg(ps, i + 1, f_rb) =~= acc0 + seg(ps, i as int, f_rb) + f_rb(i as int, ps[i as int]));
        i = i + 1;
    }
    let ghost acc1 = view_exprs(items@);
    let mut i: usize = 0;
    assert(acc1 + seg(ps, 0, f_mip) =~= acc1);
    while i < plans.len()
        invariant
            i <= plans@.len(),
            ps == plans_view(plans@),
            f_mip == mip_f(),
            view_exprs(items@) == acc1 + seg(ps, i as int, f_mip),
        decreases plans.len() - i,
    {
        let more = mip_items(i, &plans[i]);
        append_items(&mut items, more);
        assert(acc1 + seg(ps, i + 1, f_mip) =~= acc1 + seg(ps, i as int, f_mip) + f_mip(i as int, ps[i as int]));
        i = i + 1;
    }
    let ghost acc2 = view_exprs(items@);
    let mut i: usize = 0;
    assert(acc2 + seg(ps, 0, f_take) =~= acc2);
    while i < plans.len()
        invariant
            i <= plans@.len(),
            ps == plans_view(plans@),
            f_take == take_f(),
            view_exprs(items@) == acc2 + seg(ps, i as int, f_take),
        decreases plans.len() - i,
    {
        let more = take_items(i, &plans[i]);
        append_items(&mut items, more);
        assert(acc2 + seg(ps, i + 1, f_take) =~= acc2 + seg(ps, i as int, f_take) + f_take(i as int, ps[i as int]));
        i = i + 1;
    }
    let ghost acc3 = view_exprs(items@);
    let mut i: usize = 0;
    assert(acc3 + seg(ps, 0, f_alloc) =~= acc3);
    while i < plans.len()
        invariant
            i <= plans@.len(),
            ps == plans_view(plans@),
            plans_fit(ps, *registry),
            f_alloc == alloc_v(*registry),
            view_exprs(items@) == acc3 + seg(ps, i as int, f_alloc),
        decreases plans.len() - i,
    {
        assert(ps[i as int] == plans@[i as int]@);
        let more = alloc_items(i, &plans[i], registry);
        append_items(&mut items, more);
        assert(acc3 + seg(ps, i + 1, f_alloc) =~= acc3 + seg(ps, i as int, f_alloc) + f_alloc(
            i as int,
            ps[i as int],
        ));
        i = i + 1;
    }
    let ghost acc4 = view_exprs(items@);
    let mut i: usize = 0;
    assert(acc4 + seg(ps, 0, f_cfg) =~= acc4);
    while i < plans.len()
        invariant
            i <= plans@.len(),
            ps == plans_view(plans@),
            f_cfg == cfg_f(),
            view_exprs(items@) == acc4 + seg(ps, i as int, f_cfg),
        decreases plans.len() - i,
    {
        let more = cfg_items(i, &plans[i]);
        append_items(&mut items, more);
        assert(acc4 + seg(ps, i + 1, f_cfg) =~= acc4 + seg(ps, i as int, f_cfg) + f_cfg(i as int, ps[i as int]));
        i = i + 1;
    }
    assert(view_exprs(items@) =~= prelude_v(ps, *registry));
    items
}


pub open spec fn zeroed_v(name: Seq<char>, cap: i32) -> Seq<ExprV> {
    seq![
        let_v(name, list_v(seq![id_v("vec_u8.with_capacity"@), int_v(cap)])),
        list_v(seq![id_v("set"@), id_v(name), list_v(seq![id_v("vec_u8.extend_zeroes"@), id_v(name), int_v(cap)])]),
    ]
}

/// The state of a parallel map stage `i` whose slot table takes `cap`
/// bytes: its context bytes (the context parameter, or empty) and view,
/// the zeroed slot table (every slot set to -1 when results come
/// unordered), the zeroed length table and in-flight byte count when
/// in-flight bytes are limited, the zeroed index table for unordered byte
/// results, and the counters (with the head when ordered).
pub open spec fn par_map_init_v(i: int, cfg: crate::stream_pipe::ParMapStreamCfgV, cap: i32) -> Seq<ExprV> {
    let slots = stage_name("par_map_slots_"@, i);
    let init_i = stage_name("pm_init_"@, i);
    seq![
        let_v(
            stage_name("par_map_ctx_b_"@, i),
            match cfg.ctx_param {
                Some(p) => param_v(p as int),
                None => empty_payload_v(),
            },
        ),
        let_v(stage_name("par_map_ctx_v_"@, i), call1_v("bytes.view"@, stage_name("par_map_ctx_b_"@, i))),
    ] + zeroed_v(slots, cap) + (if cfg.unordered {
        seq![
            list_v(
                seq![
                    id_v("for"@),
                    id_v(init_i),
                    int_v(0),
                    int_v(cfg.max_inflight),
                    list_v(
                        seq![
                            id_v("begin"@),
                            set_u32_le_v(slots, list_v(seq![id_v("*"@), id_v(init_i), int_v(4)]), int_v(-1i32)),
                            int_v(0),
                        ],
                    ),
                ],
            ),
        ]
    } else {
        Seq::empty()
    }) + (if cfg.max_inflight_in_bytes > 0 {
        zeroed_v(stage_name("par_map_lens_"@, i), cap) + seq![let0_v(stage_name("par_map_inflight_bytes_"@, i))]
    } else {
        Seq::empty()
    }) + (if cfg.unordered && cfg.result_bytes {
        zeroed_v(stage_name("par_map_idxs_"@, i), cap)
    } else {
        Seq::empty()
    }) + seq![let0_v(stage_name("par_map_len_"@, i))] + (if !cfg.unordered {
        seq![let0_v(stage_name("par_map_head_"@, i))]
    } else {
        Seq::empty()
    }) + seq![let0_v(stage_name("par_map_next_index_"@, i))]
}

fn push_zeroed(v: &mut Vec<Expr>, name: &str, cap: i32)
    ensures
        view_exprs(final(v)@) == view_exprs(old(v)@) + zeroed_v(name@, cap),
{
    let ghost before = view_exprs(v@);
    let a = let_named(name, l2(expr_ident("vec_u8.with_capacity"), expr_int(cap)));
    let b = l3(expr_ident("set"), expr_ident(name), l3(expr_ident("vec_u8.extend_zeroes"), expr_ident(name), expr_int(cap)));
    let ghost want = seq![a@, b@];
    push_item(v, a);
    push_item(v, b);
    assert(view_exprs(v@) =~= before + want);
}

/// The state of the parallel map stage `stage_idx`, or a typing error when
/// its slot table size `4 * max_inflight` overflows.
#[verifier::rlimit(40)]
pub fn gen_par_map_init_v1(stage_idx: usize, cfg: &ParMapStreamCfgV1) -> (r: Result<Vec<Expr>, CompilerError>)
    ensures
        match r {
            Ok(items) => i32::MIN <= cfg.max_inflight * 4 <= i32::MAX && view_exprs(items@) == par_map_init_v(
                stage_idx as int,
                cfg@,
                (cfg.max_inflight * 4) as i32,
            ),
            Err(e) => !(i32::MIN <= cfg.max_inflight * 4 <= i32::MAX) && e.kind == CompileErrorKind::Typing
                && e.message@ == "par_map_stream cap overflow"@ && e.diagnostic is None,
        },
{
    let cap = match cfg.max_inflight.checked_mul(4) {
        Some(c) => c,
        None => {
            return Err(CompilerError::new(CompileErrorKind::Typing, "par_map_stream cap overflow".to_string()));
        },
    };
    let ghost i = stage_idx as int;
    let mut v: Vec<Expr> = Vec::new();
    assert(view_exprs(v@) =~= Seq::<ExprV>::empty());
    let ctx_b = stage_name_exec("par_map_ctx_b_", stage_idx);
    let ctx_v = stage_name_exec("par_map_ctx_v_", stage_idx);
    let slots = stage_name_exec("par_map_slots_", stage_idx);
    let ctx_expr = match cfg.ctx_param {
        Some(p) => param_ident(p),
        None => l2(expr_ident("bytes.alloc"), expr_int(0)),
    };
    push_item(&mut v, let_named(ctx_b.as_str(), ctx_expr));
    push_item(&mut v, let_named(ctx_v.as_str(), pair(expr_ident("bytes.view"), expr_ident(ctx_b.as_str()))));
    let ghost s0 = view_exprs(v@);
    push_zeroed(&mut v, slots.as_str(), cap);
    let ghost s1 = view_exprs(v@);
    if cfg.unordered {
        let init_i = stage_name_exec("pm_init_", stage_idx);
        let body = l3(
            expr_ident("begin"),
            vec_u8_set_u32_le(slots.as_str(), l3(expr_ident("*"), expr_ident(init_i.as_str()), expr_int(4)), expr_int(-1)),
            expr_int(0),
        );
        let f0 = expr_ident("for");
        let f1 = expr_ident(init_i.as_str());
        let f2 = expr_int(0);
        let f3 = expr_int(cfg.max_inflight);
        let ghost want = seq![f0@, f1@, f2@, f3@, body@];
        let mut w: Vec<Expr> = Vec::new();
        assert(view_exprs(w@) =~= Seq::<ExprV>::empty());
        push_item(&mut w, f0);
        push_item(&mut w, f1);
        push_item(&mut w, f2);
        push_item(&mut w, f3);
        push_item(&mut w, body);
        assert(view_exprs(w@) =~= want);
        push_item(&mut v, list_of(w, Ghost(want)));
    }
    let ghost s2 = view_exprs(v@);
    if cfg.max_inflight_in_bytes > 0 {
        let lens = stage_name_exec("par_map_lens_", stage_idx);
        push_zeroed(&mut v, lens.as_str(), cap);
        let inflight = stage_name_exec("par_map_inflight_bytes_", stage_idx);
        push_item(&mut v, let0(inflight.as_str()));
    }
    let ghost s3 = view_exprs(v@);
    if cfg.unordered && cfg.result_bytes {
        let idxs = stage_name_exec("par_map_idxs_", stage_idx);
        push_zeroed(&mut v, idxs.as_str(), cap);
    }
    let ghost s4 = view_exprs(v@);
    let len = stage_name_exec("par_map_len_", stage_idx);
    push_item(&mut v, let0(len.as_str()));
    if !cfg.unordered {
        let head = stage_name_exec("par_map_head_", stage_idx);
        push_item(&mut v, let0(head.as_str()));
    }
    let next = stage_name_exec("par_map_next_index_", stage_idx);
    push_item(&mut v, let0(next.as_str()));
    assert(view_exprs(v@) =~= par_map_init_v(i, cfg@, cap));
    Ok(v)
}

} // verus!

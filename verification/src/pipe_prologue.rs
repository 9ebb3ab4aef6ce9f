//! The opening of a pipe helper's body, in the order the helper binds it:
//! counters and stage state from the plan, the state of the parallel map
//! stages, then the sink's state.

use vstd::prelude::*;
use crate::ast::{lemma_view_exprs, view_exprs, Expr, ExprV};
use crate::compile::{CompileErrorKind, CompilerError};
use crate::pipe_prelude::{gen_par_map_init_v1, gen_pipe_prelude_v1, par_map_init_v, plans_fit, prelude_v};
use crate::pipe_sink_init::{gen_sink_init_v1, sink_init_fits, sink_init_v};
use crate::pipe_stages::{plans_view, StagePlanV1};
use crate::stream_pipe::{xf_descs_view, PipeLimitsV1, PipeParsed, PipeXfDescV, PipeXfV, PipeXfV1};
use crate::stream_plugins::StreamPluginRegistryV1;

verus! {

/// The state of the parallel map stages among `chain[..n]`, in stage
/// order, or `None` when a slot table size overflows.
pub open spec fn par_map_inits(chain: Seq<PipeXfDescV>, n: int) -> Option<Seq<ExprV>>
    decreases n,
{
    if n <= 0 {
        Some(Seq::empty())
    } else {
        match par_map_inits(chain, n - 1) {
            None => None,
            Some(s) => match chain[n - 1].kind {
                PipeXfV::ParMapStreamV1 { cfg } => if i32::MIN <= cfg.max_inflight * 4 <= i32::MAX {
                    Some(s + par_map_init_v(n - 1, cfg, (cfg.max_inflight * 4) as i32))
                } else {
                    None
                },
                _ => Some(s),
            },
        }
    }
}

/// The helper's opening items for a pipe with stage plans `plans` and
/// limits `limits`.
pub open spec fn prologue_v(
    chain: Seq<PipeXfDescV>,
    plans: Seq<crate::pipe_stages::StagePlanV>,
    reg: StreamPluginRegistryV1,
    limits: PipeLimitsV1,
) -> Option<Seq<ExprV>> {
    match par_map_inits(chain, chain.len() as int) {
        None => None,
        Some(pm) => Some(prelude_v(plans, reg) + pm + sink_init_v(limits.sink.base, limits.max_out_bytes)),
    }
}

proof fn lemma_par_map_inits_none(chain: Seq<PipeXfDescV>, m: int, n: int)
    requires
        0 <= m <= n,
        par_map_inits(chain, m) is None,
    ensures
        par_map_inits(chain, n) is None,
    decreases n - m,
{
    if n > m {
        lemma_par_map_inits_none(chain, m, n - 1);
    }
}

fn append_items(out: &mut Vec<Expr>, more: Vec<Expr>)
    ensures
        view_exprs(final(out)@) == view_exprs(old(out)@) + view_exprs(more@),
{
    let ghost a = old(out)@;
    let mut more = more;
    let ghost b = more@;
    out.append(&mut more);
    proof {
        lemma_view_exprs(a);
        lemma_view_exprs(b);
        lemma_view_exprs(out@);
        assert(out@ =~= a + b);
        assert(view_exprs(out@) =~= view_exprs(a) + view_exprs(b));
    }
}

/// The opening items of the helper for `pipe`, whose stages are planned as
/// `plans` against `registry` and whose limits are `limits`; a parallel map
/// slot table whose size overflows is a typing error.
#[verifier::rlimit(40)]
pub fn gen_pipe_prologue_v1(
    pipe: &PipeParsed,
    plans: &Vec<StagePlanV1>,
    registry: &StreamPluginRegistryV1,
    limits: &PipeLimitsV1,
) -> (r: Result<Vec<Expr>, CompilerError>)
    requires
        plans_fit(plans_view(plans@), *registry),
        sink_init_fits(limits.sink.base, limits.max_out_bytes),
    ensures
        match prologue_v(xf_descs_view(pipe.chain@), plans_view(plans@), *registry, *limits) {
            Some(items) => r matches Ok(v) && view_exprs(v@) == items,
            None => r matches Err(e) && e.kind == CompileErrorKind::Typing && e.message@
                == "par_map_stream cap overflow"@ && e.diagnostic is None,
        },
{
    let ghost cv = xf_descs_view(pipe.chain@);
    let mut items = gen_pipe_prelude_v1(plans, registry);
    let ghost pre = view_exprs(items@);
    let mut i: usize = 0;
    assert(pre + Seq::<ExprV>::empty() =~= pre);
    while i < pipe.chain.len()
        invariant
            i <= pipe.chain@.len(),
            cv == xf_descs_view(pipe.chain@),
            par_map_inits(cv, i as int) matches Some(s) && view_exprs(items@) == pre + s,
        decreases pipe.chain.len() - i,
    {
        let ghost s = par_map_inits(cv, i as int)->0;
        assert(cv[i as int] == pipe.chain@[i as int]@);
        if let PipeXfV1::ParMapStreamV1 { cfg } = &pipe.chain[i].kind {
            match gen_par_map_init_v1(i, cfg) {
                Err(e) => {
                    proof {
                        lemma_par_map_inits_none(cv, i + 1, cv.len() as int);
                    }
                    return Err(e);
                },
                Ok(more) => {
                    append_items(&mut items, more);
                    assert(pre + s + par_map_init_v(i as int, cfg@, (cfg.max_inflight * 4) as i32) =~= pre + (s
                        + par_map_init_v(i as int, cfg@, (cfg.max_inflight * 4) as i32)));
                },
            }
        }
        i = i + 1;
    }
    let ghost pm = par_map_inits(cv, cv.len() as int)->0;
    gen_sink_init_v1(&mut items, &limits.sink.base, limits.max_out_bytes);
    assert(view_exprs(items@) =~= prelude_v(plans_view(plans@), *registry) + pm + sink_init_v(
        limits.sink.base,
        limits.max_out_bytes,
    ));
    Ok(items)
}

} // verus!

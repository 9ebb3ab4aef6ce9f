//! Implicit type application: resolving the type arguments of generic calls
//! after solving, recording the `tapp` rewrites and reporting calls whose
//! type arguments stay unknown.

use vstd::prelude::*;
use crate::ast::{lemma_view_type_refs, view_type_refs, TypeRef, TypeRefV};
use crate::diagnostics::{
    dv_array, type_error, type_error_v, DiagV, DiagValue, Diagnostic, DV, LocV, Location, PatchOp,
    PatchOpV, Quickfix, QuickfixKind, QuickfixV, Severity, Stage, data_view, lemma_view_dvs,
    view_dvs,
};
use crate::infer::PendingImplicitTapp;
use crate::suggest::{
    chars_le, chars_le_exec, lemma_chars_le_antisym, lemma_chars_le_total, lemma_chars_le_trans,
};
use crate::text::{chars_eq, chars_of, concat_str, debug_str, spec_debug_str};
use crate::typecheck::{
    has_meta, term_has_meta, term_to_type_ref, term_type_ref, type_ref_to_value,
    type_refs_values, TappRewrite,
};
use crate::unify::{resolve_t, Subst, TyT, TyTerm};

verus! {

/// The mathematical form of a rewrite.
pub struct RewriteV {
    pub call_ptr: Seq<char>,
    pub callee: Seq<char>,
    pub args: Seq<TypeRefV>,
}

impl View for TappRewrite {
    type V = RewriteV;

    open spec fn view(&self) -> RewriteV {
        RewriteV {
            call_ptr: self.call_ptr@,
            callee: self.callee@,
            args: view_type_refs(self.inferred_type_args@),
        }
    }
}

/// `a` sorts strictly before `b`.
pub open spec fn chars_lt(a: Seq<char>, b: Seq<char>) -> bool {
    chars_le(a, b) && a != b
}

/// Rewrites in strictly ascending call-pointer order (so no pointer twice).
pub open spec fn rewrites_sorted(s: Seq<TappRewrite>) -> bool {
    forall|i: int, j: int|
        0 <= i < j < s.len() ==> chars_lt((#[trigger] s[i]).call_ptr@, (#[trigger] s[j]).call_ptr@)
}

/// Rewrites as a map from call pointer to rewrite.
pub open spec fn rewrites_table(s: Seq<TappRewrite>) -> Map<Seq<char>, RewriteV> {
    Map::new(
        |k: Seq<char>| exists|i: int| 0 <= i < s.len() && s[i].call_ptr@ == k,
        |k: Seq<char>| {
            let i = choose|i: int| 0 <= i < s.len() && s[i].call_ptr@ == k;
            s[i]@
        },
    )
}

proof fn lemma_sorted_distinct(s: Seq<TappRewrite>, i: int, j: int)
    requires
        rewrites_sorted(s),
        0 <= i < s.len(),
        0 <= j < s.len(),
        i != j,
    ensures
        s[i].call_ptr@ != s[j].call_ptr@,
{
    if i < j {
        assert(chars_lt(s[i].call_ptr@, s[j].call_ptr@));
    } else {
        assert(chars_lt(s[j].call_ptr@, s[i].call_ptr@));
    }
}

proof fn lemma_rw_at(s: Seq<TappRewrite>, i: int)
    requires
        rewrites_sorted(s),
        0 <= i < s.len(),
    ensures
        rewrites_table(s).dom().contains(s[i].call_ptr@),
        rewrites_table(s)[s[i].call_ptr@] == s[i]@,
{
    let k = s[i].call_ptr@;
    assert(0 <= i < s.len() && s[i].call_ptr@ == k);
    let j = choose|j: int| 0 <= j < s.len() && s[j].call_ptr@ == k;
    if j != i {
        lemma_sorted_distinct(s, i, j);
    }
}

/// Adds `r` under its call pointer, replacing an earlier rewrite there.
pub fn insert_rewrite(v: &mut Vec<TappRewrite>, r: TappRewrite)
    requires
        rewrites_sorted(old(v)@),
    ensures
        rewrites_sorted(final(v)@),
        rewrites_table(final(v)@) == rewrites_table(old(v)@).insert(r.call_ptr@, r@),
{
    let ghost s = v@;
    let ghost k = r.call_ptr@;
    let rp = chars_of(r.call_ptr.as_str());
    let mut p: usize = 0;
    while p < v.len()
        invariant
            v@ == s,
            old(v)@ == s,
            rewrites_sorted(s),
            p <= v.len(),
            rp@ == k,
            k == r.call_ptr@,
            forall|i: int| 0 <= i < p ==> chars_lt(#[trigger] s[i].call_ptr@, k),
        ensures
            v@ == s,
            p <= v.len(),
            forall|i: int| 0 <= i < p ==> chars_lt(#[trigger] s[i].call_ptr@, k),
            p < v.len() ==> (s[p as int].call_ptr@ == k || !chars_le(s[p as int].call_ptr@, k)),
        decreases v.len() - p,
    {
        let vp = chars_of(v[p].call_ptr.as_str());
        if chars_eq(&vp, &rp) || !chars_le_exec(&vp, &rp) {
            break;
        }
        p = p + 1;
    }
    let ghost rv = r@;
    if p < v.len() && chars_eq(&chars_of(v[p].call_ptr.as_str()), &rp) {
        v.set(p, r);
        proof {
            let t = v@;
            assert(t == s.update(p as int, r));
            assert forall|a: int, b: int| 0 <= a < b < t.len() implies chars_lt(
                (#[trigger] t[a]).call_ptr@,
                (#[trigger] t[b]).call_ptr@,
            ) by {
                assert(chars_lt(s[a].call_ptr@, s[b].call_ptr@));
            }
            lemma_rw_replace(s, p as int, r);
        }
    } else {
        proof {
            if p < s.len() {
                lemma_chars_le_total(s[p as int].call_ptr@, k);
            }
        }
        v.insert(p, r);
        proof {
            lemma_rw_insert(s, p as int, r);
        }
    }
}

proof fn lemma_rw_replace(s: Seq<TappRewrite>, p: int, r: TappRewrite)
    requires
        rewrites_sorted(s),
        rewrites_sorted(s.update(p, r)),
        0 <= p < s.len(),
        s[p].call_ptr@ == r.call_ptr@,
    ensures
        rewrites_table(s.update(p, r)) == rewrites_table(s).insert(r.call_ptr@, r@),
{
    let t = s.update(p, r);
    let lhs = rewrites_table(t);
    let rhs = rewrites_table(s).insert(r.call_ptr@, r@);
    assert forall|k: Seq<char>| lhs.dom().contains(k) <==> rhs.dom().contains(k) by {
        if lhs.dom().contains(k) {
            let j = choose|j: int| 0 <= j < t.len() && t[j].call_ptr@ == k;
            if j != p {
                lemma_rw_at(s, j);
            }
        }
        if rewrites_table(s).dom().contains(k) {
            let j = choose|j: int| 0 <= j < s.len() && s[j].call_ptr@ == k;
            assert(t[j].call_ptr@ == k);
        }
        if k == r.call_ptr@ {
            lemma_rw_at(t, p);
        }
    }
    assert forall|k: Seq<char>| #[trigger] lhs.dom().contains(k) implies lhs[k] == rhs[k] by {
        let j = choose|j: int| 0 <= j < t.len() && t[j].call_ptr@ == k;
        lemma_rw_at(t, j);
        if j != p {
            lemma_rw_at(s, j);
            lemma_sorted_distinct(t, j, p);
        }
    }
    assert(lhs =~= rhs);
}

proof fn lemma_rw_insert(s: Seq<TappRewrite>, p: int, r: TappRewrite)
    requires
        rewrites_sorted(s),
        0 <= p <= s.len(),
        forall|i: int| 0 <= i < p ==> chars_lt(#[trigger] s[i].call_ptr@, r.call_ptr@),
        p < s.len() ==> s[p].call_ptr@ != r.call_ptr@ && chars_le(r.call_ptr@, s[p].call_ptr@),
    ensures
        rewrites_sorted(s.insert(p, r)),
        rewrites_table(s.insert(p, r)) == rewrites_table(s).insert(r.call_ptr@, r@),
{
    let t = s.insert(p, r);
    let k = r.call_ptr@;
    assert forall|i: int| p <= i < s.len() implies chars_lt(k, #[trigger] s[i].call_ptr@) by {
        if i > p {
            assert(chars_lt(s[p].call_ptr@, s[i].call_ptr@));
            lemma_chars_le_trans(k, s[p].call_ptr@, s[i].call_ptr@);
            if k == s[i].call_ptr@ {
                lemma_chars_le_antisym(k, s[p].call_ptr@);
            }
        }
    }
    assert forall|a: int, b: int| 0 <= a < b < t.len() implies chars_lt(
        (#[trigger] t[a]).call_ptr@,
        (#[trigger] t[b]).call_ptr@,
    ) by {
        if a < p && b < p {
            assert(chars_lt(s[a].call_ptr@, s[b].call_ptr@));
        } else if a < p && b == p {
        } else if a < p && b > p {
            assert(t[b] == s[b - 1]);
            assert(chars_lt(s[a].call_ptr@, s[b - 1].call_ptr@));
        } else if a == p {
            assert(t[b] == s[b - 1]);
        } else {
            assert(t[a] == s[a - 1] && t[b] == s[b - 1]);
            assert(chars_lt(s[a - 1].call_ptr@, s[b - 1].call_ptr@));
        }
    }
    let lhs = rewrites_table(t);
    let rhs = rewrites_table(s).insert(k, r@);
    assert forall|x: Seq<char>| lhs.dom().contains(x) <==> rhs.dom().contains(x) by {
        if lhs.dom().contains(x) {
            let j = choose|j: int| 0 <= j < t.len() && t[j].call_ptr@ == x;
            if j < p {
                lemma_rw_at(s, j);
            } else if j > p {
                assert(t[j] == s[j - 1]);
                lemma_rw_at(s, j - 1);
            }
        }
        if rewrites_table(s).dom().contains(x) {
            let j = choose|j: int| 0 <= j < s.len() && s[j].call_ptr@ == x;
            if j < p {
                assert(t[j].call_ptr@ == x);
            } else {
                assert(t[j + 1].call_ptr@ == x);
            }
        }
        if x == k {
            assert(t[p].call_ptr@ == x);
        }
    }
    assert forall|x: Seq<char>| #[trigger] lhs.dom().contains(x) implies lhs[x] == rhs[x] by {
        let j = choose|j: int| 0 <= j < t.len() && t[j].call_ptr@ == x;
        lemma_rw_at(t, j);
        if j < p {
            lemma_rw_at(s, j);
        } else if j > p {
            assert(t[j] == s[j - 1]);
            lemma_rw_at(s, j - 1);
        }
    }
    assert(lhs =~= rhs);
}


/// The values of a list of type references.
pub fn type_refs_to_values(args: &Vec<TypeRef>) -> (r: Vec<DiagValue>)
    ensures
        r@.map_values(|x: DiagValue| x@) == type_refs_values(view_type_refs(args@)),
{
    proof {
        lemma_view_type_refs(args@);
    }
    let ghost vs = view_type_refs(args@);
    let mut out: Vec<DiagValue> = Vec::new();
    let mut i: usize = 0;
    assert(out@.map_values(|x: DiagValue| x@) =~= type_refs_values(vs.take(0)));
    while i < args.len()
        invariant
            vs == view_type_refs(args@),
            vs.len() == args@.len(),
            forall|j: int| 0 <= j < args@.len() ==> #[trigger] vs[j] == args@[j]@,
            i <= args.len(),
            out@.map_values(|x: DiagValue| x@) == type_refs_values(vs.take(i as int)),
        decreases args.len() - i,
    {
        let ghost before = out@;
        let c = type_ref_to_value(&args[i]);
        out.push(c);
        proof {
            assert(vs.take(i + 1).drop_last() =~= vs.take(i as int));
            assert(vs.take(i + 1).last() == vs[i as int]);
            assert(out@.map_values(|x: DiagValue| x@) =~= before.map_values(|x: DiagValue| x@).push(
                c@,
            ));
        }
        i = i + 1;
    }
    assert(vs.take(args.len() as int) =~= vs);
    out
}

/// The call expression `before` (a JSON array `[callee, args...]`)
/// rewritten as `["tapp", callee, ["tys", type args...], args...]`.
pub open spec fn tapp_rewrite_value(before: DV, callee: Seq<char>, args: Seq<TypeRefV>) -> Option<
    DV,
> {
    match before {
        DV::Arr(items) => if items.len() > 0 {
            Some(
                DV::Arr(
                    seq![
                        DV::Str("tapp"@),
                        DV::Str(callee),
                        DV::Arr(seq![DV::Str("tys"@)] + type_refs_values(args)),
                    ] + items.skip(1),
                ),
            )
        } else {
            None
        },
        _ => None,
    }
}

pub fn tapp_call_rewrite_expr(before_expr_json: &DiagValue, callee: &str, type_args: &Vec<TypeRef>) -> (r: Option<DiagValue>)
    ensures
        match r {
            Some(v) => tapp_rewrite_value(before_expr_json@, callee@, view_type_refs(type_args@))
                == Some(v@),
            None => tapp_rewrite_value(before_expr_json@, callee@, view_type_refs(type_args@))
                is None,
        },
{
    match before_expr_json {
        DiagValue::Arr(items) => {
            proof {
                lemma_view_dvs(items@);
            }
            if items.len() == 0 {
                return None;
            }
            let mut tys: Vec<DiagValue> = Vec::new();
            tys.push(DiagValue::Str("tys".to_string()));
            let mut rest = type_refs_to_values(type_args);
            let ghost rest0 = rest@;
            tys.append(&mut rest);
            let mut out: Vec<DiagValue> = Vec::new();
            out.push(DiagValue::Str("tapp".to_string()));
            out.push(DiagValue::Str(callee.to_string()));
            let ghost tys_seq = tys@;
            out.push(dv_array(tys));
            let ghost out0 = out@;
            let mut i: usize = 1;
            while i < items.len()
                invariant
                    1 <= i <= items.len(),
                    out@.len() == 3 + (i - 1),
                    forall|j: int| 0 <= j < 3 ==> #[trigger] out@[j] == out0[j],
                    forall|j: int| 3 <= j < out@.len() ==> (#[trigger] out@[j])@ == items@[j - 2]@,
                decreases items.len() - i,
            {
                out.push(items[i].copy_value());
                i = i + 1;
            }
            proof {
                let want = seq![
                    DV::Str("tapp"@),
                    DV::Str(callee@),
                    DV::Arr(seq![DV::Str("tys"@)] + type_refs_values(view_type_refs(type_args@))),
                ] + view_dvs(items@).skip(1);
                assert(tys_seq.map_values(|x: DiagValue| x@) =~= seq![DV::Str("tys"@)] + rest0.map_values(
                    |x: DiagValue| x@,
                ));
                assert(out@.map_values(|x: DiagValue| x@) =~= want);
            }
            Some(dv_array(out))
        },
        _ => None,
    }
}

/// The rewrite diagnostic: a quickfix that replaces the call at its
/// pointer by the explicit `tapp` form, after testing it is unchanged.
pub open spec fn tapp_elab_v(r: RewriteV, before: DV, after: DV) -> DiagV {
    DiagV {
        code: "X07-TAPP-ELAB-0001"@,
        severity: Severity::Error,
        stage: Stage::Rewrite,
        message: "insert inferred tapp for "@ + spec_debug_str(r.callee),
        loc: Some(LocV::X07Ast(r.call_ptr)),
        notes: Seq::empty(),
        related: Seq::empty(),
        data: seq![
            ("callee"@, DV::Str(r.callee)),
            ("type_args"@, DV::Arr(type_refs_values(r.args))),
        ],
        quickfix: Some(
            QuickfixV {
                kind: QuickfixKind::JsonPatch,
                patch: seq![PatchOpV::Test(r.call_ptr, before), PatchOpV::Replace(r.call_ptr, after)],
                note: Some("Insert tapp"@),
            },
        ),
    }
}

pub fn diag_for_tapp_elab(r: &TappRewrite, before_expr_json: &DiagValue, after_expr_json: DiagValue) -> (d: Diagnostic)
    ensures
        d@ == tapp_elab_v(r@, before_expr_json@, after_expr_json@),
{
    let args = dv_array(type_refs_to_values(&r.inferred_type_args));
    let data = vec![
        ("callee".to_string(), DiagValue::Str(r.callee.clone())),
        ("type_args".to_string(), args),
    ];
    let patch = vec![
        PatchOp::Test { path: r.call_ptr.clone(), value: before_expr_json.copy_value() },
        PatchOp::Replace { path: r.call_ptr.clone(), value: after_expr_json },
    ];
    let d = Diagnostic {
        code: "X07-TAPP-ELAB-0001".to_string(),
        severity: Severity::Error,
        stage: Stage::Rewrite,
        message: concat_str("insert inferred tapp for ", debug_str(r.callee.as_str()).as_str()),
        loc: Some(Location::X07Ast { ptr: r.call_ptr.clone() }),
        notes: Vec::new(),
        related: Vec::new(),
        data,
        quickfix: Some(
            Quickfix { kind: QuickfixKind::JsonPatch, patch, note: Some("Insert tapp".to_string()) },
        ),
    };
    proof {
        let want = tapp_elab_v(r@, before_expr_json@, after_expr_json@);
        assert(d@.notes =~= want.notes);
        assert(d@.related =~= want.related);
        assert(d@.data =~= want.data);
        assert(d@.quickfix->0.patch =~= want.quickfix->0.patch);
    }
    d
}

/// The type arguments of the first `k` type parameters of a pending call,
/// resolved under `m`: those that resolve to a closed type reference, and
/// the names of those that do not.
pub open spec fn tapp_args_outcome(m: Map<u32, TyT>, names: Seq<String>, mids: Seq<u32>, k: nat) -> (
    Seq<TypeRefV>,
    Seq<Seq<char>>,
)
    decreases k,
{
    if k == 0 {
        (Seq::empty(), Seq::empty())
    } else {
        let prev = tapp_args_outcome(m, names, mids, (k - 1) as nat);
        let t = resolve_t(m, TyT::Meta(mids[k - 1]));
        if has_meta(t) {
            (prev.0, prev.1.push(names[k - 1]@))
        } else {
            match term_type_ref(t) {
                Some(tr) => (prev.0.push(tr), prev.1),
                None => (prev.0, prev.1.push(names[k - 1]@)),
            }
        }
    }
}

pub open spec fn pending_count(p: PendingImplicitTapp) -> nat {
    if p.type_params.len() <= p.meta_ids.len() {
        p.type_params.len() as nat
    } else {
        p.meta_ids.len() as nat
    }
}

pub open spec fn pending_outcome(m: Map<u32, TyT>, p: PendingImplicitTapp) -> (
    Seq<TypeRefV>,
    Seq<Seq<char>>,
) {
    tapp_args_outcome(m, p.type_params@, p.meta_ids@, pending_count(p))
}

/// The report for a call whose type arguments `unresolved` stay unknown.
pub open spec fn tapp_infer_v(p: PendingImplicitTapp, unresolved: Seq<Seq<char>>) -> DiagV {
    type_error_v(
        "X07-TAPP-INFER-0001"@,
        "cannot infer type args; explicit tapp required: "@ + spec_debug_str(p.callee@),
        p.call_ptr@,
        seq![
            ("callee"@, DV::Str(p.callee@)),
            ("unresolved_type_params"@, DV::Arr(unresolved.map_values(|n: Seq<char>| DV::Str(n)))),
        ],
    )
}

/// The reports for the pending calls `ps`, in order.
pub open spec fn drain_diags(m: Map<u32, TyT>, ps: Seq<PendingImplicitTapp>) -> Seq<DiagV>
    decreases ps.len(),
{
    if ps.len() == 0 {
        Seq::empty()
    } else {
        let init = drain_diags(m, ps.drop_last());
        let out = pending_outcome(m, ps.last());
        if out.1.len() > 0 {
            init.push(tapp_infer_v(ps.last(), out.1))
        } else {
            init
        }
    }
}

/// The rewrite table `t` after recording every pending call of `ps` whose
/// type arguments all resolved.
pub open spec fn drain_table(m: Map<u32, TyT>, ps: Seq<PendingImplicitTapp>, t: Map<Seq<char>, RewriteV>) -> Map<
    Seq<char>,
    RewriteV,
>
    decreases ps.len(),
{
    if ps.len() == 0 {
        t
    } else {
        let init = drain_table(m, ps.drop_last(), t);
        let p = ps.last();
        let out = pending_outcome(m, p);
        if out.1.len() > 0 {
            init
        } else {
            init.insert(p.call_ptr@, RewriteV { call_ptr: p.call_ptr@, callee: p.callee@, args: out.0 })
        }
    }
}

pub open spec fn diags_view(s: Seq<Diagnostic>) -> Seq<DiagV> {
    s.map_values(|d: Diagnostic| d@)
}

fn resolve_pending_args(p: &PendingImplicitTapp, subst: &Subst) -> (r: (Vec<TypeRef>, Vec<String>))
    requires
        subst.wf(),
    ensures
        (view_type_refs(r.0@), r.1@.map_values(|s: String| s@)) == pending_outcome(subst@, *p),
{
    let n = if p.type_params.len() <= p.meta_ids.len() {
        p.type_params.len()
    } else {
        p.meta_ids.len()
    };
    let mut inferred: Vec<TypeRef> = Vec::new();
    let mut unresolved: Vec<String> = Vec::new();
    let mut j: usize = 0;
    assert(unresolved@.map_values(|s: String| s@) =~= Seq::<Seq<char>>::empty());
    proof {
        lemma_view_type_refs(inferred@);
    }
    while j < n
        invariant
            n == pending_count(*p),
            n <= p.type_params.len(),
            n <= p.meta_ids.len(),
            subst.wf(),
            j <= n,
            (view_type_refs(inferred@), unresolved@.map_values(|s: String| s@)) == tapp_args_outcome(
                subst@,
                p.type_params@,
                p.meta_ids@,
                j as nat,
            ),
        decreases n - j,
    {
        let t = subst.resolve(&TyTerm::Meta(p.meta_ids[j]));
        let ghost bi = inferred@;
        let ghost bu = unresolved@;
        if term_has_meta(&t) {
            unresolved.push(p.type_params[j].clone());
            assert(unresolved@.map_values(|s: String| s@) =~= bu.map_values(|s: String| s@).push(
                p.type_params@[j as int]@,
            ));
        } else {
            match term_to_type_ref(&t) {
                Some(tr) => {
                    inferred.push(tr);
                    proof {
                        lemma_view_type_refs(bi);
                        lemma_view_type_refs(inferred@);
                        assert(view_type_refs(inferred@) =~= view_type_refs(bi).push(tr@));
                    }
                },
                None => {
                    unresolved.push(p.type_params[j].clone());
                    assert(unresolved@.map_values(|s: String| s@) =~= bu.map_values(|s: String| s@).push(
                        p.type_params@[j as int]@,
                    ));
                },
            }
        }
        j = j + 1;
    }
    (inferred, unresolved)
}

/// Resolves each pending implicit type application under `subst`: a call
/// whose type arguments all resolve is recorded as a rewrite (keyed by its
/// pointer); any other is reported.
pub fn drain_pending_tapp(
    pending: Vec<PendingImplicitTapp>,
    subst: &Subst,
    diagnostics: &mut Vec<Diagnostic>,
    tapp_rewrites: &mut Vec<TappRewrite>,
)
    requires
        subst.wf(),
        rewrites_sorted(old(tapp_rewrites)@),
    ensures
        rewrites_sorted(final(tapp_rewrites)@),
        diags_view(final(diagnostics)@) == diags_view(old(diagnostics)@) + drain_diags(
            subst@,
            pending@,
        ),
        rewrites_table(final(tapp_rewrites)@) == drain_table(
            subst@,
            pending@,
            rewrites_table(old(tapp_rewrites)@),
        ),
        pending@.len() == 0 ==> *final(diagnostics) == *old(diagnostics) && *final(tapp_rewrites) == *old(
            tapp_rewrites,
        ),
{
    let ghost d0 = diags_view(diagnostics@);
    let ghost t0 = rewrites_table(tapp_rewrites@);
    let mut i: usize = 0;
    assert(pending@.take(0) =~= Seq::<PendingImplicitTapp>::empty());
    assert(d0 + drain_diags(subst@, pending@.take(0)) =~= d0);
    while i < pending.len()
        invariant
            subst.wf(),
            i <= pending.len(),
            rewrites_sorted(tapp_rewrites@),
            diags_view(diagnostics@) == d0 + drain_diags(subst@, pending@.take(i as int)),
            rewrites_table(tapp_rewrites@) == drain_table(subst@, pending@.take(i as int), t0),
            pending@.len() == 0 ==> *diagnostics == *old(diagnostics) && *tapp_rewrites == *old(tapp_rewrites),
        decreases pending.len() - i,
    {
        let p = &pending[i];
        let (inferred, unresolved) = resolve_pending_args(p, subst);
        proof {
            assert(pending@.take(i + 1).drop_last() =~= pending@.take(i as int));
            assert(pending@.take(i + 1).last() == pending@[i as int]);
        }
        let ghost before = diagnostics@;
        if unresolved.len() > 0 {
            let mut names: Vec<DiagValue> = Vec::new();
            let mut k: usize = 0;
            while k < unresolved.len()
                invariant
                    k <= unresolved.len(),
                    names@.len() == k,
                    forall|j: int| 0 <= j < k ==> (#[trigger] names@[j])@ == DV::Str(unresolved@[j]@),
                decreases unresolved.len() - k,
            {
                names.push(DiagValue::Str(unresolved[k].clone()));
                k = k + 1;
            }
            let ghost names_v = names@.map_values(|x: DiagValue| x@);
            let data = vec![
                ("callee".to_string(), DiagValue::Str(p.callee.clone())),
                ("unresolved_type_params".to_string(), dv_array(names)),
            ];
            let message = concat_str(
                "cannot infer type args; explicit tapp required: ",
                debug_str(p.callee.as_str()).as_str(),
            );
            proof {
                let out = pending_outcome(subst@, *p);
                assert(names_v =~= out.1.map_values(|n: Seq<char>| DV::Str(n)));
                assert(data_view(data@) =~= seq![
                    ("callee"@, DV::Str(p.callee@)),
                    ("unresolved_type_params"@, DV::Arr(out.1.map_values(|n: Seq<char>| DV::Str(n)))),
                ]);
            }
            let d = type_error("X07-TAPP-INFER-0001", message, p.call_ptr.clone(), data);
            diagnostics.push(d);
            proof {
                let out = pending_outcome(subst@, *p);
                assert(d@ == tapp_infer_v(*p, out.1));
                assert(diags_view(diagnostics@) =~= diags_view(before).push(d@));
            }
        } else {
            let r = TappRewrite {
                call_ptr: p.call_ptr.clone(),
                callee: p.callee.clone(),
                inferred_type_args: inferred,
            };
            insert_rewrite(tapp_rewrites, r);
            proof {
                assert(diagnostics@ == before);
            }
        }
        i = i + 1;
    }
    assert(pending@.take(pending.len() as int) =~= pending@);
}

} // verus!

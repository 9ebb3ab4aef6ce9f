//! Item-brand typing of parsed pipes: the signatures of the functions a pipe
//! names, the brand each stage requires and produces, and the check that
//! rewrites the chain with the `require_brand` stages it needs.

use vstd::prelude::*;
use crate::compile::{CompileErrorKind, CompilerError};
use crate::program::{FunctionParam, Program};
use crate::stream_pipe::{
    opt_in_view, opt_str_view, xf_descs_view, BrandInV, BrandOutV, ParMapStreamCfgV1,
    PipeItemBrandInV1, PipeItemBrandOutV1, PipeParsed, PipeParsedV, PipeSinkDescV, PipeSrcDescV, PipeXfDescV,
    PipeXfDescV1, PipeXfV, PipeXfV1,
};
use crate::text::{concat_str, debug_str, spec_debug_str, str_eq};
use crate::types::Ty;

verus! {

/// A parameter's type and brand.
pub open spec fn param_sig(p: FunctionParam) -> (Ty, Option<Seq<char>>) {
    (p.ty, opt_str_view(p.brand))
}

pub open spec fn params_sig(ps: Seq<FunctionParam>) -> Seq<(Ty, Option<Seq<char>>)> {
    Seq::new(ps.len(), |i: int| param_sig(ps[i]))
}

/// A function's parameters, result type and result brand.
#[derive(Debug)]
pub struct PipeFnSigV1 {
    pub params: Vec<FunctionParam>,
    pub ret_ty: Ty,
    pub ret_brand: Option<String>,
}

pub struct FnSigV {
    pub params: Seq<(Ty, Option<Seq<char>>)>,
    pub ret_ty: Ty,
    pub ret_brand: Option<Seq<char>>,
}

impl View for PipeFnSigV1 {
    type V = FnSigV;

    open spec fn view(&self) -> FnSigV {
        FnSigV { params: params_sig(self.params@), ret_ty: self.ret_ty, ret_brand: opt_str_view(self.ret_brand) }
    }
}

/// The signatures of a program's `defn`s (externs included) and `defasync`s,
/// by name; a later entry of a name replaces an earlier one.
#[derive(Debug)]
pub struct PipeFnSigsV1 {
    pub defns: Vec<(String, PipeFnSigV1)>,
    pub defasyncs: Vec<(String, PipeFnSigV1)>,
}

pub open spec fn sigs_view(v: Seq<(String, PipeFnSigV1)>) -> Seq<(Seq<char>, FnSigV)> {
    Seq::new(v.len(), |i: int| (v[i].0@, v[i].1@))
}

/// The signature recorded last for `k`.
pub open spec fn sig_lookup(s: Seq<(Seq<char>, FnSigV)>, k: Seq<char>) -> Option<FnSigV>
    decreases s.len(),
{
    if s.len() == 0 {
        None
    } else if s.last().0 == k {
        Some(s.last().1)
    } else {
        sig_lookup(s.drop_last(), k)
    }
}

fn copy_string(s: &String) -> (r: String)
    ensures
        r@ == s@,
{
    s.as_str().to_string()
}

fn copy_opt_string(s: &Option<String>) -> (r: Option<String>)
    ensures
        opt_str_view(r) == opt_str_view(*s),
{
    match s {
        Some(x) => Some(copy_string(x)),
        None => None,
    }
}

fn copy_params(ps: &Vec<FunctionParam>) -> (r: Vec<FunctionParam>)
    ensures
        params_sig(r@) == params_sig(ps@),
{
    let mut out: Vec<FunctionParam> = Vec::new();
    let mut i: usize = 0;
    while i < ps.len()
        invariant
            i <= ps@.len(),
            params_sig(out@) == params_sig(ps@).take(i as int),
        decreases ps.len() - i,
    {
        let p = &ps[i];
        let ghost before = out@;
        let np = FunctionParam { name: copy_string(&p.name), ty: p.ty, brand: copy_opt_string(&p.brand) };
        assert(param_sig(np) == param_sig(ps@[i as int]));
        out.push(np);
        assert(out@ == before.push(np));
        assert(params_sig(out@) =~= params_sig(before).push(param_sig(np)));
        i = i + 1;
        assert(params_sig(out@) =~= params_sig(ps@).take(i as int));
    }
    assert(params_sig(ps@).take(i as int) =~= params_sig(ps@));
    out
}

/// The `defn` table of a program: its functions, then its externs (an
/// extern's result has no brand).
pub open spec fn defn_sigs(p: Program) -> Seq<(Seq<char>, FnSigV)> {
    Seq::new(
        p.functions@.len(),
        |i: int|
            (
                p.functions@[i].name@,
                FnSigV {
                    params: params_sig(p.functions@[i].params@),
                    ret_ty: p.functions@[i].ret_ty,
                    ret_brand: opt_str_view(p.functions@[i].ret_brand),
                },
            ),
    ) + Seq::new(
        p.extern_functions@.len(),
        |i: int|
            (
                p.extern_functions@[i].name@,
                FnSigV {
                    params: params_sig(p.extern_functions@[i].params@),
                    ret_ty: p.extern_functions@[i].ret_ty,
                    ret_brand: None,
                },
            ),
    )
}

pub open spec fn defasync_sigs(p: Program) -> Seq<(Seq<char>, FnSigV)> {
    Seq::new(
        p.async_functions@.len(),
        |i: int|
            (
                p.async_functions@[i].name@,
                FnSigV {
                    params: params_sig(p.async_functions@[i].params@),
                    ret_ty: p.async_functions@[i].ret_ty,
                    ret_brand: opt_str_view(p.async_functions@[i].ret_brand),
                },
            ),
    )
}

impl PipeFnSigsV1 {
    pub fn build(program: &Program) -> (r: Self)
        ensures
            sigs_view(r.defns@) == defn_sigs(*program),
            sigs_view(r.defasyncs@) == defasync_sigs(*program),
    {
        let ghost want = defn_sigs(*program);
        let nf = program.functions.len();
        let mut defns: Vec<(String, PipeFnSigV1)> = Vec::new();
        let mut i: usize = 0;
        while i < nf
            invariant
                i <= nf,
                nf == program.functions@.len(),
                want == defn_sigs(*program),
                sigs_view(defns@) == want.take(i as int),
            decreases nf - i,
        {
            let f = &program.functions[i];
            let ghost before = defns@;
            let e = (
                copy_string(&f.name),
                PipeFnSigV1 { params: copy_params(&f.params), ret_ty: f.ret_ty, ret_brand: copy_opt_string(&f.ret_brand) },
            );
            assert((e.0@, e.1@) == want[i as int]);
            defns.push(e);
            assert(sigs_view(defns@) =~= sigs_view(before).push((e.0@, e.1@)));
            i = i + 1;
            assert(sigs_view(defns@) =~= want.take(i as int));
        }
        let ne = program.extern_functions.len();
        let mut j: usize = 0;
        while j < ne
            invariant
                j <= ne,
                nf == program.functions@.len(),
                ne == program.extern_functions@.len(),
                want == defn_sigs(*program),
                sigs_view(defns@) == want.take(nf + j),
            decreases ne - j,
        {
            let f = &program.extern_functions[j];
            let ghost before = defns@;
            let e = (copy_string(&f.name), PipeFnSigV1 { params: copy_params(&f.params), ret_ty: f.ret_ty, ret_brand: None });
            assert((e.0@, e.1@) == want[nf + j]);
            defns.push(e);
            assert(sigs_view(defns@) =~= sigs_view(before).push((e.0@, e.1@)));
            j = j + 1;
            assert(sigs_view(defns@) =~= want.take(nf + j));
        }
        assert(want.take(nf + j) =~= want);
        let ghost wa = defasync_sigs(*program);
        let na = program.async_functions.len();
        let mut defasyncs: Vec<(String, PipeFnSigV1)> = Vec::new();
        let mut k: usize = 0;
        while k < na
            invariant
                k <= na,
                na == program.async_functions@.len(),
                wa == defasync_sigs(*program),
                sigs_view(defasyncs@) == wa.take(k as int),
            decreases na - k,
        {
            let f = &program.async_functions[k];
            let ghost before = defasyncs@;
            let e = (
                copy_string(&f.name),
                PipeFnSigV1 { params: copy_params(&f.params), ret_ty: f.ret_ty, ret_brand: copy_opt_string(&f.ret_brand) },
            );
            assert((e.0@, e.1@) == wa[k as int]);
            defasyncs.push(e);
            assert(sigs_view(defasyncs@) =~= sigs_view(before).push((e.0@, e.1@)));
            k = k + 1;
            assert(sigs_view(defasyncs@) =~= wa.take(k as int));
        }
        assert(wa.take(k as int) =~= wa);
        PipeFnSigsV1 { defns, defasyncs }
    }

    fn find(v: &Vec<(String, PipeFnSigV1)>, fn_id: &str) -> (r: Option<usize>)
        ensures
            match r {
                Some(i) => i < v@.len() && sig_lookup(sigs_view(v@), fn_id@) == Some(v@[i as int].1@),
                None => sig_lookup(sigs_view(v@), fn_id@) is None,
            },
    {
        let mut i: usize = v.len();
        assert(sigs_view(v@).take(i as int) =~= sigs_view(v@));
        while i > 0
            invariant
                i <= v@.len(),
                sig_lookup(sigs_view(v@), fn_id@) == sig_lookup(sigs_view(v@).take(i as int), fn_id@),
            decreases i,
        {
            assert(sigs_view(v@).take(i as int).drop_last() =~= sigs_view(v@).take(i - 1));
            if str_eq(v[i - 1].0.as_str(), fn_id) {
                return Some(i - 1);
            }
            i = i - 1;
        }
        None
    }

    /// The `defn` signature of `fn_id`.
    pub fn defn(&self, fn_id: &str) -> (r: Option<&PipeFnSigV1>)
        ensures
            match r {
                Some(s) => sig_lookup(sigs_view(self.defns@), fn_id@) == Some(s@),
                None => sig_lookup(sigs_view(self.defns@), fn_id@) is None,
            },
    {
        match Self::find(&self.defns, fn_id) {
            Some(i) => Some(&self.defns[i].1),
            None => None,
        }
    }

    /// The `defasync` signature of `fn_id`.
    pub fn defasync(&self, fn_id: &str) -> (r: Option<&PipeFnSigV1>)
        ensures
            match r {
                Some(s) => sig_lookup(sigs_view(self.defasyncs@), fn_id@) == Some(s@),
                None => sig_lookup(sigs_view(self.defasyncs@), fn_id@) is None,
            },
    {
        match Self::find(&self.defasyncs, fn_id) {
            Some(i) => Some(&self.defasyncs[i].1),
            None => None,
        }
    }
}

/// The error for a brand validator that is unknown or has the wrong
/// signature; a validator takes an unbranded `bytes_view` and returns an
/// unbranded `result_i32`.
pub open spec fn validator_sig_error(defns: Seq<(Seq<char>, FnSigV)>, vid: Seq<char>, ptr: Seq<char>) -> Option<Seq<char>> {
    match sig_lookup(defns, vid) {
        None => Some("unknown identifier: "@ + spec_debug_str(vid) + " (ptr="@ + ptr + ")"@),
        Some(sig) => if sig.params.len() != 1 || sig.params[0].0 != Ty::BytesView || sig.params[0].1 is Some
            || sig.ret_ty != Ty::ResultI32 || sig.ret_brand is Some {
            Some(
                "E_PIPE_BRAND_VALIDATOR_SIG: "@ + spec_debug_str(vid)
                    + " must have signature (bytes_view) -> result_i32 (ptr="@ + ptr + ")"@,
            )
        } else {
            None
        },
    }
}

fn msg3(a: &str, b: &str, c: &str) -> (r: String)
    ensures
        r@ == a@ + b@ + c@,
{
    let m = concat_str(a, b);
    concat_str(m.as_str(), c)
}

pub fn ensure_brand_validator_sig_v1(validator_id: &str, fn_sigs: &PipeFnSigsV1, ptr: &str) -> (r: Result<
    (),
    CompilerError,
>)
    ensures
        match validator_sig_error(sigs_view(fn_sigs.defns@), validator_id@, ptr@) {
            None => r is Ok,
            Some(m) => r matches Err(e) && e.kind == CompileErrorKind::Typing && e.message@ == m,
        },
{
    let sig = match fn_sigs.defn(validator_id) {
        Some(s) => s,
        None => {
            let m1 = msg3("unknown identifier: ", debug_str(validator_id).as_str(), " (ptr=");
            return Err(CompilerError::new(CompileErrorKind::Typing, msg3(m1.as_str(), ptr, ")")));
        },
    };
    let ok = sig.params.len() == 1 && sig.params[0].ty == Ty::BytesView && sig.params[0].brand.is_none()
        && sig.ret_ty == Ty::ResultI32 && sig.ret_brand.is_none();
    if !ok {
        let m1 = msg3(
            "E_PIPE_BRAND_VALIDATOR_SIG: ",
            debug_str(validator_id).as_str(),
            " must have signature (bytes_view) -> result_i32 (ptr=",
        );
        return Err(CompilerError::new(CompileErrorKind::Typing, msg3(m1.as_str(), ptr, ")")));
    }
    Ok(())
}

/// The brand a stage requires of its input: its own `in_item_brand`, else
/// the brand of a mapper's bytes parameter, else any.
pub open spec fn req_in_spec(xf: PipeXfDescV, defns: Seq<(Seq<char>, FnSigV)>, defasyncs: Seq<(Seq<char>, FnSigV)>) -> BrandInV {
    match xf.in_item_brand {
        Some(b) => b,
        None => match xf.kind {
            PipeXfV::MapBytes { fn_id } => match sig_lookup(defns, fn_id) {
                Some(sig) => if sig.params.len() == 1 && sig.params[0].0 == Ty::BytesView && sig.params[0].1 is Some {
                    BrandInV::Brand(sig.params[0].1->0)
                } else {
                    BrandInV::Any
                },
                None => BrandInV::Any,
            },
            PipeXfV::ParMapStreamV1 { cfg } => match sig_lookup(defasyncs, cfg.mapper_defasync) {
                Some(sig) => if sig.params.len() >= 2 && sig.params[1].0 == Ty::Bytes && sig.params[1].1 is Some {
                    BrandInV::Brand(sig.params[1].1->0)
                } else {
                    BrandInV::Any
                },
                None => BrandInV::Any,
            },
            _ => BrandInV::Any,
        },
    }
}

/// The brand a stage gives its output, and whether it is a claim the stage
/// produces (a declared brand, or a mapper's result brand).
pub open spec fn out_spec(xf: PipeXfDescV, defns: Seq<(Seq<char>, FnSigV)>, defasyncs: Seq<(Seq<char>, FnSigV)>) -> (
    BrandOutV,
    bool,
) {
    match xf.out_item_brand {
        Some(b) => (b, b is Brand),
        None => match xf.kind {
            PipeXfV::RequireBrandV1 { brand_id, .. } => (BrandOutV::Brand(brand_id), false),
            PipeXfV::Filter { .. } | PipeXfV::Take { .. } => (BrandOutV::Same, false),
            PipeXfV::MapBytes { fn_id } => match sig_lookup(defns, fn_id) {
                Some(sig) => if sig.ret_ty == Ty::Bytes && sig.ret_brand is Some {
                    (BrandOutV::Brand(sig.ret_brand->0), true)
                } else {
                    (BrandOutV::Unbranded, false)
                },
                None => (BrandOutV::Unbranded, false),
            },
            PipeXfV::ParMapStreamV1 { cfg } => match sig_lookup(defasyncs, cfg.mapper_defasync) {
                Some(sig) => if (sig.ret_ty == Ty::Bytes || sig.ret_ty == Ty::ResultBytes) && sig.ret_brand is Some {
                    (BrandOutV::Brand(sig.ret_brand->0), true)
                } else {
                    (BrandOutV::Unbranded, false)
                },
                None => (BrandOutV::Unbranded, false),
            },
            _ => (BrandOutV::Unbranded, false),
        },
    }
}

pub(crate) fn copy_brand_in(b: &PipeItemBrandInV1) -> (r: PipeItemBrandInV1)
    ensures
        r@ == b@,
{
    match b {
        PipeItemBrandInV1::Any => PipeItemBrandInV1::Any,
        PipeItemBrandInV1::Same => PipeItemBrandInV1::Same,
        PipeItemBrandInV1::Brand(s) => PipeItemBrandInV1::Brand(copy_string(s)),
    }
}

pub(crate) fn copy_brand_out(b: &PipeItemBrandOutV1) -> (r: PipeItemBrandOutV1)
    ensures
        r@ == b@,
{
    match b {
        PipeItemBrandOutV1::Same => PipeItemBrandOutV1::Same,
        PipeItemBrandOutV1::Unbranded => PipeItemBrandOutV1::Unbranded,
        PipeItemBrandOutV1::Brand(s) => PipeItemBrandOutV1::Brand(copy_string(s)),
    }
}

pub fn infer_xf_req_in_v1(xf: &PipeXfDescV1, fn_sigs: &PipeFnSigsV1) -> (r: PipeItemBrandInV1)
    ensures
        r@ == req_in_spec(xf@, sigs_view(fn_sigs.defns@), sigs_view(fn_sigs.defasyncs@)),
{
    if let Some(v) = &xf.in_item_brand {
        return copy_brand_in(v);
    }
    match &xf.kind {
        PipeXfV1::MapBytes { fn_id } => {
            if let Some(sig) = fn_sigs.defn(fn_id.as_str()) {
                if sig.params.len() == 1 && sig.params[0].ty == Ty::BytesView {
                    if let Some(b) = &sig.params[0].brand {
                        return PipeItemBrandInV1::Brand(copy_string(b));
                    }
                }
            }
            PipeItemBrandInV1::Any
        },
        PipeXfV1::ParMapStreamV1 { cfg } => {
            if let Some(sig) = fn_sigs.defasync(cfg.mapper_defasync.as_str()) {
                if sig.params.len() >= 2 && sig.params[1].ty == Ty::Bytes {
                    if let Some(b) = &sig.params[1].brand {
                        return PipeItemBrandInV1::Brand(copy_string(b));
                    }
                }
            }
            PipeItemBrandInV1::Any
        },
        _ => PipeItemBrandInV1::Any,
    }
}

pub fn infer_xf_out_v1(xf: &PipeXfDescV1, fn_sigs: &PipeFnSigsV1) -> (r: (PipeItemBrandOutV1, bool))
    ensures
        (r.0@, r.1) == out_spec(xf@, sigs_view(fn_sigs.defns@), sigs_view(fn_sigs.defasyncs@)),
{
    if let Some(v) = &xf.out_item_brand {
        let claim = match v {
            PipeItemBrandOutV1::Brand(_) => true,
            _ => false,
        };
        return (copy_brand_out(v), claim);
    }
    match &xf.kind {
        PipeXfV1::RequireBrandV1 { brand_id, .. } => (PipeItemBrandOutV1::Brand(copy_string(brand_id)), false),
        PipeXfV1::Filter { .. } | PipeXfV1::Take { .. } => (PipeItemBrandOutV1::Same, false),
        PipeXfV1::MapBytes { fn_id } => {
            if let Some(sig) = fn_sigs.defn(fn_id.as_str()) {
                if sig.ret_ty == Ty::Bytes {
                    if let Some(b) = &sig.ret_brand {
                        return (PipeItemBrandOutV1::Brand(copy_string(b)), true);
                    }
                }
            }
            (PipeItemBrandOutV1::Unbranded, false)
        },
        PipeXfV1::ParMapStreamV1 { cfg } => {
            if let Some(sig) = fn_sigs.defasync(cfg.mapper_defasync.as_str()) {
                if sig.ret_ty == Ty::Bytes || sig.ret_ty == Ty::ResultBytes {
                    if let Some(b) = &sig.ret_brand {
                        return (PipeItemBrandOutV1::Brand(copy_string(b)), true);
                    }
                }
            }
            (PipeItemBrandOutV1::Unbranded, false)
        },
        _ => (PipeItemBrandOutV1::Unbranded, false),
    }
}


/// The brand registry: the validator recorded last for each brand.
pub open spec fn reg_view(v: Seq<(String, String)>) -> Seq<(Seq<char>, Seq<char>)> {
    Seq::new(v.len(), |i: int| (v[i].0@, v[i].1@))
}

pub open spec fn reg_get(reg: Seq<(Seq<char>, Seq<char>)>, k: Seq<char>) -> Option<Seq<char>>
    decreases reg.len(),
{
    if reg.len() == 0 {
        None
    } else if reg.last().0 == k {
        Some(reg.last().1)
    } else {
        reg_get(reg.drop_last(), k)
    }
}

/// The message for a brand the registry has no validator for.
pub open spec fn missing_validator(b: Seq<char>, ptr: Seq<char>) -> Seq<char> {
    "E_PIPE_BRAND_REGISTRY_MISSING: brand "@ + spec_debug_str(b) + " is missing meta.brands_v1.validate (ptr="@ + ptr
        + ")"@
}

/// A `require_brand` stage the check inserts.
pub open spec fn require_stage(b: Seq<char>, v: Seq<char>, ptr: Seq<char>) -> PipeXfDescV {
    PipeXfDescV {
        kind: PipeXfV::RequireBrandV1 { brand_id: b, validator_id: Some(v), max_item_bytes: 0 },
        in_item_brand: None,
        out_item_brand: None,
        ptr,
    }
}

/// The registry's validator for `b`, checked; `missing` is the message when
/// the registry has none.
pub open spec fn registry_validator(
    reg: Seq<(Seq<char>, Seq<char>)>,
    defns: Seq<(Seq<char>, FnSigV)>,
    b: Seq<char>,
    ptr: Seq<char>,
    missing: Seq<char>,
) -> Result<Seq<char>, Seq<char>> {
    match reg_get(reg, b) {
        None => Err(missing),
        Some(v) => match validator_sig_error(defns, v, ptr) {
            Some(m) => Err(m),
            None => Ok(v),
        },
    }
}

/// A `require_brand` stage with its validator filled in from the registry
/// and checked; other stages unchanged.
pub open spec fn resolve_xf(xf: PipeXfDescV, reg: Seq<(Seq<char>, Seq<char>)>, defns: Seq<(Seq<char>, FnSigV)>) -> Result<
    PipeXfDescV,
    Seq<char>,
> {
    match xf.kind {
        PipeXfV::RequireBrandV1 { brand_id, validator_id, max_item_bytes } => {
            let resolved = match validator_id {
                Some(v) => Ok(v),
                None => match reg_get(reg, brand_id) {
                    Some(v) => Ok(v),
                    None => Err(missing_validator(brand_id, xf.ptr)),
                },
            };
            match resolved {
                Err(m) => Err(m),
                Ok(v) => match validator_sig_error(defns, v, xf.ptr) {
                    Some(m) => Err(m),
                    None => Ok(
                        PipeXfDescV {
                            kind: PipeXfV::RequireBrandV1 { brand_id, validator_id: Some(v), max_item_bytes },
                            ..xf
                        },
                    ),
                },
            }
        },
        _ => Ok(xf),
    }
}

pub open spec fn resolve_chain(c: Seq<PipeXfDescV>, reg: Seq<(Seq<char>, Seq<char>)>, defns: Seq<(Seq<char>, FnSigV)>) -> Result<
    Seq<PipeXfDescV>,
    Seq<char>,
>
    decreases c.len(),
{
    if c.len() == 0 {
        Ok(Seq::empty())
    } else {
        match resolve_chain(c.drop_last(), reg, defns) {
            Err(m) => Err(m),
            Ok(r) => match resolve_xf(c.last(), reg, defns) {
                Err(m) => Err(m),
                Ok(x) => Ok(r.push(x)),
            },
        }
    }
}

/// The brand of the items flowing so far and the stages emitted.
pub struct BrandFlowV {
    pub cur: Option<Seq<char>>,
    pub out: Seq<PipeXfDescV>,
}

/// What the check needs besides the chain: registry, signatures, switches.
pub struct BrandEnvV {
    pub reg: Seq<(Seq<char>, Seq<char>)>,
    pub defns: Seq<(Seq<char>, FnSigV)>,
    pub defasyncs: Seq<(Seq<char>, FnSigV)>,
    pub auto: bool,
    pub verify: bool,
}

/// The source's brand starts the flow; with verification on, a branded
/// source is followed by a `require_brand` of its brand.
pub open spec fn flow_init(src: PipeSrcDescV, env: BrandEnvV) -> Result<BrandFlowV, Seq<char>> {
    match src.out_item_brand {
        Some(b) => if env.verify {
            match registry_validator(env.reg, env.defns, b, src.ptr, missing_validator(b, src.ptr)) {
                Err(m) => Err(m),
                Ok(v) => Ok(BrandFlowV { cur: Some(b), out: seq![require_stage(b, v, src.ptr)] }),
            }
        } else {
            Ok(BrandFlowV { cur: Some(b), out: Seq::empty() })
        },
        None => Ok(BrandFlowV { cur: None, out: Seq::empty() }),
    }
}

/// One stage of the flow: its input requirement is met (or, with
/// `auto_require_brand_v1`, a `require_brand` is inserted before it), the
/// stage is emitted with its validator resolved, the current brand follows
/// its output, and a produced brand is verified when asked for.
pub open spec fn flow_step(st: BrandFlowV, xf: PipeXfDescV, env: BrandEnvV) -> Result<BrandFlowV, Seq<char>> {
    let p = xf.ptr;
    let st1 = match req_in_spec(xf, env.defns, env.defasyncs) {
        BrandInV::Any => Ok(st),
        BrandInV::Same => if st.cur is None {
            Err("E_PIPE_BRAND_REQUIRED: stage requires branded items, got unbranded (ptr="@ + p + ")"@)
        } else {
            Ok(st)
        },
        BrandInV::Brand(want) => match st.cur {
            Some(got) => if got == want {
                Ok(st)
            } else {
                Err("E_PIPE_BRAND_MISMATCH: expected bytes_view@"@ + want + ", got bytes_view@"@ + got + " (ptr="@ + p + ")"@)
            },
            None => if env.auto {
                match registry_validator(
                    env.reg,
                    env.defns,
                    want,
                    p,
                    "E_PIPE_BRAND_REQUIRED: expected bytes_view@"@ + want
                        + ", got unbranded; missing meta.brands_v1.validate and auto_require_brand_v1 cannot insert require_brand (ptr="@
                        + p + ")"@,
                ) {
                    Err(m) => Err(m),
                    Ok(v) => Ok(BrandFlowV { cur: Some(want), out: st.out.push(require_stage(want, v, p)) }),
                }
            } else {
                Err("E_PIPE_BRAND_REQUIRED: expected bytes_view@"@ + want + ", got unbranded (ptr="@ + p + ")"@)
            },
        },
    };
    match st1 {
        Err(m) => Err(m),
        Ok(s1) => match resolve_xf(xf, env.reg, env.defns) {
            Err(m) => Err(m),
            Ok(xo) => {
                let out1 = s1.out.push(xo);
                let (ob, claim) = out_spec(xo, env.defns, env.defasyncs);
                let cur2 = match ob {
                    BrandOutV::Same => s1.cur,
                    BrandOutV::Unbranded => None,
                    BrandOutV::Brand(b) => Some(b),
                };
                if env.verify && claim && cur2 is Some {
                    let b = cur2->0;
                    match registry_validator(env.reg, env.defns, b, p, missing_validator(b, p)) {
                        Err(m) => Err(m),
                        Ok(v) => Ok(BrandFlowV { cur: cur2, out: out1.push(require_stage(b, v, p)) }),
                    }
                } else {
                    Ok(BrandFlowV { cur: cur2, out: out1 })
                }
            },
        },
    }
}

pub open spec fn flow_fold(c: Seq<PipeXfDescV>, st0: BrandFlowV, env: BrandEnvV) -> Result<BrandFlowV, Seq<char>>
    decreases c.len(),
{
    if c.len() == 0 {
        Ok(st0)
    } else {
        match flow_fold(c.drop_last(), st0, env) {
            Err(m) => Err(m),
            Ok(st) => flow_step(st, c.last(), env),
        }
    }
}

/// The sink's requirement against the final brand.
pub open spec fn sink_check(sink: PipeSinkDescV, st: BrandFlowV, env: BrandEnvV) -> Result<
    Seq<PipeXfDescV>,
    (CompileErrorKind, Seq<char>),
> {
    let p = sink.ptr;
    match sink.in_item_brand {
        None => Ok(st.out),
        Some(BrandInV::Any) => Ok(st.out),
        Some(BrandInV::Same) => Err(
            (CompileErrorKind::Internal, "internal error: sink in_item_brand cannot be \"same\""@),
        ),
        Some(BrandInV::Brand(want)) => match st.cur {
            Some(got) => if got == want {
                Ok(st.out)
            } else {
                Err(
                    (
                        CompileErrorKind::Typing,
                        "E_PIPE_BRAND_MISMATCH: sink expected bytes_view@"@ + want + ", got bytes_view@"@ + got + " (ptr="@
                            + p + ")"@,
                    ),
                )
            },
            None => if env.auto {
                match registry_validator(
                    env.reg,
                    env.defns,
                    want,
                    p,
                    "E_PIPE_BRAND_REQUIRED: sink expected bytes_view@"@ + want
                        + ", got unbranded; missing meta.brands_v1.validate and auto_require_brand_v1 cannot insert require_brand (ptr="@
                        + p + ")"@,
                ) {
                    Err(m) => Err((CompileErrorKind::Typing, m)),
                    Ok(v) => Ok(st.out.push(require_stage(want, v, p))),
                }
            } else {
                Err(
                    (
                        CompileErrorKind::Typing,
                        "E_PIPE_BRAND_REQUIRED: sink expected bytes_view@"@ + want + ", got unbranded (ptr="@ + p + ")"@,
                    ),
                )
            },
        },
    }
}

/// The chain after the brand check, or the error: validators are resolved
/// first (also when brand typing is off), then brands flow from the source
/// through every stage to the sink.
pub open spec fn brand_check_spec(
    p: PipeParsedV,
    reg: Seq<(Seq<char>, Seq<char>)>,
    defns: Seq<(Seq<char>, FnSigV)>,
    defasyncs: Seq<(Seq<char>, FnSigV)>,
) -> Result<Seq<PipeXfDescV>, (CompileErrorKind, Seq<char>)> {
    match resolve_chain(p.chain, reg, defns) {
        Err(m) => Err((CompileErrorKind::Typing, m)),
        Ok(c1) => if p.cfg.typecheck_item_brands_v1 == 0 {
            Ok(c1)
        } else {
            let env = BrandEnvV {
                reg,
                defns,
                defasyncs,
                auto: p.cfg.auto_require_brand_v1 != 0,
                verify: p.cfg.verify_produced_brands_v1 != 0,
            };
            match flow_init(p.src, env) {
                Err(m) => Err((CompileErrorKind::Typing, m)),
                Ok(st0) => match flow_fold(c1, st0, env) {
                    Err(m) => Err((CompileErrorKind::Typing, m)),
                    Ok(st) => sink_check(p.sink, st, env),
                },
            }
        },
    }
}


fn cat(a: String, b: &str) -> (r: String)
    ensures
        r@ == a@ + b@,
{
    concat_str(a.as_str(), b)
}

fn copy_par_map_cfg(c: &ParMapStreamCfgV1) -> (r: ParMapStreamCfgV1)
    ensures
        r@ == c@,
{
    ParMapStreamCfgV1 {
        max_inflight: c.max_inflight,
        max_item_bytes: c.max_item_bytes,
        max_inflight_in_bytes: c.max_inflight_in_bytes,
        max_out_item_bytes: c.max_out_item_bytes,
        ctx_param: c.ctx_param,
        mapper_defasync: copy_string(&c.mapper_defasync),
        scope_cfg: c.scope_cfg.copy_expr(),
        unordered: c.unordered,
        result_bytes: c.result_bytes,
    }
}

fn copy_xf_kind(k: &PipeXfV1) -> (r: PipeXfV1)
    ensures
        r@ == k@,
{
    match k {
        PipeXfV1::MapBytes { fn_id } => PipeXfV1::MapBytes { fn_id: copy_string(fn_id) },
        PipeXfV1::Filter { fn_id } => PipeXfV1::Filter { fn_id: copy_string(fn_id) },
        PipeXfV1::RequireBrandV1 { brand_id, validator_id, max_item_bytes } => PipeXfV1::RequireBrandV1 {
            brand_id: copy_string(brand_id),
            validator_id: copy_opt_string(validator_id),
            max_item_bytes: *max_item_bytes,
        },
        PipeXfV1::Take { n_param } => PipeXfV1::Take { n_param: *n_param },
        PipeXfV1::SplitLines { delim_param, max_line_bytes_param } => PipeXfV1::SplitLines {
            delim_param: *delim_param,
            max_line_bytes_param: *max_line_bytes_param,
        },
        PipeXfV1::FrameU32Le => PipeXfV1::FrameU32Le,
        PipeXfV1::MapInPlaceBufV1 { scratch_cap_bytes, clear_before_each, fn_id } => PipeXfV1::MapInPlaceBufV1 {
            scratch_cap_bytes: *scratch_cap_bytes,
            clear_before_each: *clear_before_each,
            fn_id: copy_string(fn_id),
        },
        PipeXfV1::JsonCanonStreamV1 { cfg } => PipeXfV1::JsonCanonStreamV1 { cfg: *cfg },
        PipeXfV1::DeframeU32LeV1 { cfg } => PipeXfV1::DeframeU32LeV1 { cfg: *cfg },
        PipeXfV1::PluginV1 { plugin_id, cfg_param, strict_brands, strict_cfg_canon } => PipeXfV1::PluginV1 {
            plugin_id: copy_string(plugin_id),
            cfg_param: *cfg_param,
            strict_brands: *strict_brands,
            strict_cfg_canon: *strict_cfg_canon,
        },
        PipeXfV1::ParMapStreamV1 { cfg } => PipeXfV1::ParMapStreamV1 { cfg: copy_par_map_cfg(cfg) },
    }
}

fn copy_xf_desc(x: &PipeXfDescV1) -> (r: PipeXfDescV1)
    ensures
        r@ == x@,
{
    PipeXfDescV1 {
        kind: copy_xf_kind(&x.kind),
        in_item_brand: match &x.in_item_brand {
            Some(b) => Some(copy_brand_in(b)),
            None => None,
        },
        out_item_brand: match &x.out_item_brand {
            Some(b) => Some(copy_brand_out(b)),
            None => None,
        },
        ptr: copy_string(&x.ptr),
    }
}

fn reg_lookup<'a>(registry: &'a Vec<(String, String)>, k: &str) -> (r: Option<&'a String>)
    ensures
        match r {
            Some(v) => reg_get(reg_view(registry@), k@) == Some(v@),
            None => reg_get(reg_view(registry@), k@) is None,
        },
{
    let mut i: usize = registry.len();
    assert(reg_view(registry@).take(i as int) =~= reg_view(registry@));
    while i > 0
        invariant
            i <= registry@.len(),
            reg_get(reg_view(registry@), k@) == reg_get(reg_view(registry@).take(i as int), k@),
        decreases i,
    {
        assert(reg_view(registry@).take(i as int).drop_last() =~= reg_view(registry@).take(i - 1));
        if str_eq(registry[i - 1].0.as_str(), k) {
            return Some(&registry[i - 1].1);
        }
        i = i - 1;
    }
    None
}

fn missing_validator_msg(b: &str, ptr: &str) -> (r: String)
    ensures
        r@ == missing_validator(b@, ptr@),
{
    let m = cat("E_PIPE_BRAND_REGISTRY_MISSING: brand ".to_string(), debug_str(b).as_str());
    let m = cat(m, " is missing meta.brands_v1.validate (ptr=");
    let m = cat(m, ptr);
    cat(m, ")")
}

fn typing_err(m: String) -> (e: CompilerError)
    ensures
        e.kind == CompileErrorKind::Typing && e.message@ == m@,
{
    CompilerError::new(CompileErrorKind::Typing, m)
}

fn registry_validator_exec(
    registry: &Vec<(String, String)>,
    fn_sigs: &PipeFnSigsV1,
    b: &str,
    ptr: &str,
    missing: String,
) -> (r: Result<String, CompilerError>)
    ensures
        match registry_validator(reg_view(registry@), sigs_view(fn_sigs.defns@), b@, ptr@, missing@) {
            Ok(v) => r matches Ok(s) && s@ == v,
            Err(m) => r matches Err(e) && e.kind == CompileErrorKind::Typing && e.message@ == m,
        },
{
    let v = match reg_lookup(registry, b) {
        Some(v) => v,
        None => {
            return Err(typing_err(missing));
        },
    };
    ensure_brand_validator_sig_v1(v.as_str(), fn_sigs, ptr)?;
    Ok(copy_string(v))
}

fn require_stage_exec(b: &str, v: String, ptr: &str) -> (r: PipeXfDescV1)
    ensures
        r@ == require_stage(b@, v@, ptr@),
{
    PipeXfDescV1 {
        kind: PipeXfV1::RequireBrandV1 { brand_id: b.to_string(), validator_id: Some(v), max_item_bytes: 0 },
        in_item_brand: None,
        out_item_brand: None,
        ptr: ptr.to_string(),
    }
}

fn resolve_xf_exec(xf: &PipeXfDescV1, registry: &Vec<(String, String)>, fn_sigs: &PipeFnSigsV1) -> (r: Result<
    PipeXfDescV1,
    CompilerError,
>)
    ensures
        match resolve_xf(xf@, reg_view(registry@), sigs_view(fn_sigs.defns@)) {
            Ok(x) => r matches Ok(y) && y@ == x,
            Err(m) => r matches Err(e) && e.kind == CompileErrorKind::Typing && e.message@ == m,
        },
{
    match &xf.kind {
        PipeXfV1::RequireBrandV1 { brand_id, validator_id, max_item_bytes } => {
            let resolved = match validator_id {
                Some(v) => copy_string(v),
                None => match reg_lookup(registry, brand_id.as_str()) {
                    Some(v) => copy_string(v),
                    None => {
                        return Err(typing_err(missing_validator_msg(brand_id.as_str(), xf.ptr.as_str())));
                    },
                },
            };
            ensure_brand_validator_sig_v1(resolved.as_str(), fn_sigs, xf.ptr.as_str())?;
            let mut out = copy_xf_desc(xf);
            out.kind = PipeXfV1::RequireBrandV1 {
                brand_id: copy_string(brand_id),
                validator_id: Some(resolved),
                max_item_bytes: *max_item_bytes,
            };
            Ok(out)
        },
        _ => Ok(copy_xf_desc(xf)),
    }
}

/// The brand flowing between stages and the stages emitted so far.
struct BrandFlow {
    cur: Option<String>,
    out: Vec<PipeXfDescV1>,
}

impl View for BrandFlow {
    type V = BrandFlowV;

    closed spec fn view(&self) -> BrandFlowV {
        BrandFlowV { cur: opt_str_view(self.cur), out: xf_descs_view(self.out@) }
    }
}



fn flow_init_exec(
    src_brand: &Option<String>,
    src_ptr: &str,
    registry: &Vec<(String, String)>,
    fn_sigs: &PipeFnSigsV1,
    verify: bool,
    Ghost(env): Ghost<BrandEnvV>,
    Ghost(src): Ghost<PipeSrcDescV>,
) -> (r: Result<BrandFlow, CompilerError>)
    requires
        env.reg == reg_view(registry@),
        env.defns == sigs_view(fn_sigs.defns@),
        env.verify == verify,
        src.out_item_brand == opt_str_view(*src_brand),
        src.ptr == src_ptr@,
    ensures
        match flow_init(src, env) {
            Ok(st) => r matches Ok(x) && x@ == st,
            Err(m) => r matches Err(e) && e.kind == CompileErrorKind::Typing && e.message@ == m,
        },
{
    let mut out: Vec<PipeXfDescV1> = Vec::new();
    match src_brand {
        Some(b) => {
            if verify {
                let v = registry_validator_exec(registry, fn_sigs, b.as_str(), src_ptr, missing_validator_msg(b.as_str(), src_ptr))?;
                out.push(require_stage_exec(b.as_str(), v, src_ptr));
                proof {
                    assert(xf_descs_view(out@) =~= seq![require_stage(b@, reg_get(env.reg, b@)->0, src_ptr@)]);
                }
            } else {
                assert(xf_descs_view(out@) =~= Seq::<PipeXfDescV>::empty());
            }
            Ok(BrandFlow { cur: Some(copy_string(b)), out })
        },
        None => {
            assert(xf_descs_view(out@) =~= Seq::<PipeXfDescV>::empty());
            Ok(BrandFlow { cur: None, out })
        },
    }
}

fn push_stage(st: &mut BrandFlow, x: PipeXfDescV1)
    ensures
        final(st)@ == (BrandFlowV { cur: old(st)@.cur, out: old(st)@.out.push(x@) }),
{
    st.out.push(x);
    assert(xf_descs_view(st.out@) =~= xf_descs_view(old(st).out@).push(x@));
}

fn mismatch_msg(pre: &str, want: &str, got: &str, ptr: &str) -> (r: String)
    ensures
        r@ == pre@ + want@ + ", got bytes_view@"@ + got@ + " (ptr="@ + ptr@ + ")"@,
{
    let m = cat(pre.to_string(), want);
    let m = cat(m, ", got bytes_view@");
    let m = cat(m, got);
    let m = cat(m, " (ptr=");
    let m = cat(m, ptr);
    cat(m, ")")
}

fn want_msg(pre: &str, want: &str, mid: &str, ptr: &str) -> (r: String)
    ensures
        r@ == pre@ + want@ + mid@ + ptr@ + ")"@,
{
    let m = cat(pre.to_string(), want);
    let m = cat(m, mid);
    let m = cat(m, ptr);
    cat(m, ")")
}

#[verifier::rlimit(60)]
fn flow_step_exec(
    st: &mut BrandFlow,
    xf: &PipeXfDescV1,
    registry: &Vec<(String, String)>,
    fn_sigs: &PipeFnSigsV1,
    auto: bool,
    verify: bool,
    Ghost(env): Ghost<BrandEnvV>,
) -> (r: Result<(), CompilerError>)
    requires
        env.reg == reg_view(registry@),
        env.defns == sigs_view(fn_sigs.defns@),
        env.defasyncs == sigs_view(fn_sigs.defasyncs@),
        env.auto == auto,
        env.verify == verify,
    ensures
        match flow_step(old(st)@, xf@, env) {
            Ok(n) => r is Ok && final(st)@ == n,
            Err(m) => r matches Err(e) && e.kind == CompileErrorKind::Typing && e.message@ == m,
        },
{
    let p = xf.ptr.as_str();
    let req = infer_xf_req_in_v1(xf, fn_sigs);
    match &req {
        PipeItemBrandInV1::Any => {},
        PipeItemBrandInV1::Same => {
            if st.cur.is_none() {
                return Err(
                    typing_err(
                        cat(cat("E_PIPE_BRAND_REQUIRED: stage requires branded items, got unbranded (ptr=".to_string(), p), ")"),
                    ),
                );
            }
        },
        PipeItemBrandInV1::Brand(want) => {
            match &st.cur {
                Some(got) => {
                    if !str_eq(got.as_str(), want.as_str()) {
                        return Err(
                            typing_err(
                                mismatch_msg("E_PIPE_BRAND_MISMATCH: expected bytes_view@", want.as_str(), got.as_str(), p),
                            ),
                        );
                    }
                },
                None => {
                    if auto {
                        let missing = want_msg(
                            "E_PIPE_BRAND_REQUIRED: expected bytes_view@",
                            want.as_str(),
                            ", got unbranded; missing meta.brands_v1.validate and auto_require_brand_v1 cannot insert require_brand (ptr=",
                            p,
                        );
                        let v = registry_validator_exec(registry, fn_sigs, want.as_str(), p, missing)?;
                        push_stage(st, require_stage_exec(want.as_str(), v, p));
                        st.cur = Some(copy_string(want));
                    } else {
                        return Err(
                            typing_err(
                                want_msg("E_PIPE_BRAND_REQUIRED: expected bytes_view@", want.as_str(), ", got unbranded (ptr=", p),
                            ),
                        );
                    }
                },
            }
        },
    }
    let xo = resolve_xf_exec(xf, registry, fn_sigs)?;
    let (ob, claim) = infer_xf_out_v1(&xo, fn_sigs);
    push_stage(st, xo);
    match ob {
        PipeItemBrandOutV1::Same => {},
        PipeItemBrandOutV1::Unbranded => {
            st.cur = None;
        },
        PipeItemBrandOutV1::Brand(b) => {
            st.cur = Some(b);
        },
    }
    if verify && claim {
        if let Some(b) = &st.cur {
            let v = registry_validator_exec(registry, fn_sigs, b.as_str(), p, missing_validator_msg(b.as_str(), p))?;
            let stage = require_stage_exec(b.as_str(), v, p);
            push_stage(st, stage);
        }
    }
    Ok(())
}


fn sink_check_exec(
    sink_brand: &Option<PipeItemBrandInV1>,
    sink_ptr: &str,
    st: &mut BrandFlow,
    registry: &Vec<(String, String)>,
    fn_sigs: &PipeFnSigsV1,
    auto: bool,
    Ghost(env): Ghost<BrandEnvV>,
    Ghost(sink): Ghost<PipeSinkDescV>,
) -> (r: Result<(), CompilerError>)
    requires
        env.reg == reg_view(registry@),
        env.defns == sigs_view(fn_sigs.defns@),
        env.auto == auto,
        sink.in_item_brand == opt_in_view(*sink_brand),
        sink.ptr == sink_ptr@,
    ensures
        match sink_check(sink, old(st)@, env) {
            Ok(out) => r is Ok && final(st)@.out == out,
            Err((k, m)) => r matches Err(e) && e.kind == k && e.message@ == m,
        },
{
    let p = sink_ptr;
    match sink_brand {
        None => Ok(()),
        Some(PipeItemBrandInV1::Any) => Ok(()),
        Some(PipeItemBrandInV1::Same) => Err(
            CompilerError::new(
                CompileErrorKind::Internal,
                "internal error: sink in_item_brand cannot be \"same\"".to_string(),
            ),
        ),
        Some(PipeItemBrandInV1::Brand(want)) => match &st.cur {
            Some(got) => {
                if str_eq(got.as_str(), want.as_str()) {
                    Ok(())
                } else {
                    Err(
                        typing_err(
                            mismatch_msg("E_PIPE_BRAND_MISMATCH: sink expected bytes_view@", want.as_str(), got.as_str(), p),
                        ),
                    )
                }
            },
            None => {
                if auto {
                    let missing = want_msg(
                        "E_PIPE_BRAND_REQUIRED: sink expected bytes_view@",
                        want.as_str(),
                        ", got unbranded; missing meta.brands_v1.validate and auto_require_brand_v1 cannot insert require_brand (ptr=",
                        p,
                    );
                    let v = registry_validator_exec(registry, fn_sigs, want.as_str(), p, missing)?;
                    push_stage(st, require_stage_exec(want.as_str(), v, p));
                    Ok(())
                } else {
                    Err(
                        typing_err(
                            want_msg("E_PIPE_BRAND_REQUIRED: sink expected bytes_view@", want.as_str(), ", got unbranded (ptr=", p),
                        ),
                    )
                }
            },
        },
    }
}

proof fn lemma_resolve_err_prefix(c: Seq<PipeXfDescV>, reg: Seq<(Seq<char>, Seq<char>)>, defns: Seq<(Seq<char>, FnSigV)>, k: int)
    requires
        0 <= k <= c.len(),
        resolve_chain(c.take(k), reg, defns) is Err,
    ensures
        resolve_chain(c, reg, defns) == resolve_chain(c.take(k), reg, defns),
    decreases c.len() - k,
{
    if k < c.len() {
        assert(c.take(k + 1).drop_last() =~= c.take(k));
        lemma_resolve_err_prefix(c, reg, defns, k + 1);
    } else {
        assert(c.take(k) =~= c);
    }
}

proof fn lemma_flow_err_prefix(c: Seq<PipeXfDescV>, st0: BrandFlowV, env: BrandEnvV, k: int)
    requires
        0 <= k <= c.len(),
        flow_fold(c.take(k), st0, env) is Err,
    ensures
        flow_fold(c, st0, env) == flow_fold(c.take(k), st0, env),
    decreases c.len() - k,
{
    if k < c.len() {
        assert(c.take(k + 1).drop_last() =~= c.take(k));
        lemma_flow_err_prefix(c, st0, env, k + 1);
    } else {
        assert(c.take(k) =~= c);
    }
}

/// Checks that item brands agree along the pipe and rewrites its chain:
/// every `require_brand` gets its validator, and when brand typing is on,
/// `require_brand` stages are inserted where `auto_require_brand_v1` or
/// `verify_produced_brands_v1` call for them. The registry maps a brand to
/// its validator function.
#[verifier::rlimit(60)]
pub fn typecheck_and_rewrite_item_brands_v1(
    pipe: &mut PipeParsed,
    registry: &Vec<(String, String)>,
    fn_sigs: &PipeFnSigsV1,
) -> (r: Result<(), CompilerError>)
    ensures
        match brand_check_spec(old(pipe)@, reg_view(registry@), sigs_view(fn_sigs.defns@), sigs_view(fn_sigs.defasyncs@)) {
            Ok(c) => r is Ok && final(pipe)@ == (PipeParsedV { chain: c, ..old(pipe)@ }),
            Err((k, m)) => r matches Err(e) && e.kind == k && e.message@ == m,
        },
        r is Err ==> final(pipe)@ == old(pipe)@,
{
    let ghost p0 = pipe@;
    let ghost reg = reg_view(registry@);
    let ghost defns = sigs_view(fn_sigs.defns@);
    let ghost defasyncs = sigs_view(fn_sigs.defasyncs@);
    let n = pipe.chain.len();
    let mut resolved: Vec<PipeXfDescV1> = Vec::new();
    let mut i: usize = 0;
    assert(p0.chain.take(0) =~= Seq::<PipeXfDescV>::empty());
    assert(xf_descs_view(resolved@) =~= Seq::<PipeXfDescV>::empty());
    while i < n
        invariant
            i <= n,
            n == pipe.chain@.len(),
            pipe@ == p0,
            old(pipe)@ == p0,
            reg == reg_view(registry@),
            defns == sigs_view(fn_sigs.defns@),
            p0.chain == xf_descs_view(pipe.chain@),
            resolved@.len() == i,
            resolve_chain(p0.chain.take(i as int), reg, defns) == Ok::<Seq<PipeXfDescV>, Seq<char>>(
                xf_descs_view(resolved@),
            ),
        decreases n - i,
    {
        let ghost nxt = p0.chain.take(i + 1);
        assert(nxt.drop_last() =~= p0.chain.take(i as int));
        assert(nxt.last() == pipe.chain@[i as int]@);
        match resolve_xf_exec(&pipe.chain[i], registry, fn_sigs) {
            Ok(x) => {
                let ghost before = xf_descs_view(resolved@);
                resolved.push(x);
                assert(xf_descs_view(resolved@) =~= before.push(x@));
            },
            Err(e) => {
                proof {
                    lemma_resolve_err_prefix(p0.chain, reg, defns, i + 1);
                }
                return Err(e);
            },
        }
        i = i + 1;
    }
    assert(p0.chain.take(n as int) =~= p0.chain);
    if pipe.cfg.typecheck_item_brands_v1 == 0 {
        pipe.chain = resolved;
        return Ok(());
    }
    let auto = pipe.cfg.auto_require_brand_v1 != 0;
    let verify = pipe.cfg.verify_produced_brands_v1 != 0;
    let ghost env = BrandEnvV { reg, defns, defasyncs, auto, verify };
    let ghost c1 = xf_descs_view(resolved@);
    let mut st = flow_init_exec(
        &pipe.src.out_item_brand,
        pipe.src.ptr.as_str(),
        registry,
        fn_sigs,
        verify,
        Ghost(env),
        Ghost(p0.src),
    )?;
    let ghost st0 = st@;
    let mut j: usize = 0;
    assert(c1.take(0) =~= Seq::<PipeXfDescV>::empty());
    while j < n
        invariant
            j <= n,
            n == resolved@.len(),
            c1 == xf_descs_view(resolved@),
            pipe@ == p0,
            old(pipe)@ == p0,
            env == (BrandEnvV { reg, defns, defasyncs, auto, verify }),
            reg == reg_view(registry@),
            defns == sigs_view(fn_sigs.defns@),
            defasyncs == sigs_view(fn_sigs.defasyncs@),
            flow_fold(c1.take(j as int), st0, env) == Ok::<BrandFlowV, Seq<char>>(st@),
            resolve_chain(p0.chain, reg, defns) == Ok::<Seq<PipeXfDescV>, Seq<char>>(c1),
            p0.cfg.typecheck_item_brands_v1 != 0,
            auto == (p0.cfg.auto_require_brand_v1 != 0),
            verify == (p0.cfg.verify_produced_brands_v1 != 0),
            flow_init(p0.src, env) == Ok::<BrandFlowV, Seq<char>>(st0),
        decreases n - j,
    {
        let ghost nxt = c1.take(j + 1);
        assert(nxt.drop_last() =~= c1.take(j as int));
        assert(nxt.last() == resolved@[j as int]@);
        match flow_step_exec(&mut st, &resolved[j], registry, fn_sigs, auto, verify, Ghost(env)) {
            Ok(()) => {},
            Err(e) => {
                proof {
                    lemma_flow_err_prefix(c1, st0, env, j + 1);
                }
                return Err(e);
            },
        }
        j = j + 1;
    }
    assert(c1.take(n as int) =~= c1);
    sink_check_exec(
        &pipe.sink.in_item_brand,
        pipe.sink.ptr.as_str(),
        &mut st,
        registry,
        fn_sigs,
        auto,
        Ghost(env),
        Ghost(p0.sink),
    )?;
    pipe.chain = st.out;
    Ok(())
}


/// Whether items of brand `cur` meet requirement `req`.
pub open spec fn req_met(req: BrandInV, cur: Option<Seq<char>>) -> bool {
    match req {
        BrandInV::Any => true,
        BrandInV::Same => cur is Some,
        BrandInV::Brand(w) => cur == Some(w),
    }
}

/// The brand after a stage whose output is `ob`.
pub open spec fn next_brand(ob: BrandOutV, cur: Option<Seq<char>>) -> Option<Seq<char>> {
    match ob {
        BrandOutV::Same => cur,
        BrandOutV::Unbranded => None,
        BrandOutV::Brand(b) => Some(b),
    }
}

/// The brand at the end of a chain whose first stage gets items of brand
/// `cur0`, or `None` when a stage gets items that do not meet its
/// requirement.
pub open spec fn brand_walk(
    cur0: Option<Seq<char>>,
    c: Seq<PipeXfDescV>,
    defns: Seq<(Seq<char>, FnSigV)>,
    defasyncs: Seq<(Seq<char>, FnSigV)>,
) -> Option<Option<Seq<char>>>
    decreases c.len(),
{
    if c.len() == 0 {
        Some(cur0)
    } else {
        match brand_walk(cur0, c.drop_last(), defns, defasyncs) {
            None => None,
            Some(cur) => if req_met(req_in_spec(c.last(), defns, defasyncs), cur) {
                Some(next_brand(out_spec(c.last(), defns, defasyncs).0, cur))
            } else {
                None
            },
        }
    }
}

/// Whether the sink's requirement is met by items of brand `cur`.
pub open spec fn sink_req_met(req: Option<BrandInV>, cur: Option<Seq<char>>) -> bool {
    match req {
        None => true,
        Some(BrandInV::Any) => true,
        Some(BrandInV::Same) => false,
        Some(BrandInV::Brand(w)) => cur == Some(w),
    }
}

proof fn lemma_walk_push(
    cur0: Option<Seq<char>>,
    c: Seq<PipeXfDescV>,
    x: PipeXfDescV,
    defns: Seq<(Seq<char>, FnSigV)>,
    defasyncs: Seq<(Seq<char>, FnSigV)>,
)
    ensures
        brand_walk(cur0, c.push(x), defns, defasyncs) == match brand_walk(cur0, c, defns, defasyncs) {
            None => None,
            Some(cur) => if req_met(req_in_spec(x, defns, defasyncs), cur) {
                Some(next_brand(out_spec(x, defns, defasyncs).0, cur))
            } else {
                None
            },
        },
{
    assert(c.push(x).drop_last() =~= c);
}

proof fn lemma_require_stage_flow(b: Seq<char>, v: Seq<char>, ptr: Seq<char>, defns: Seq<(Seq<char>, FnSigV)>, defasyncs: Seq<(Seq<char>, FnSigV)>)
    ensures
        req_in_spec(require_stage(b, v, ptr), defns, defasyncs) == BrandInV::Any,
        out_spec(require_stage(b, v, ptr), defns, defasyncs).0 == BrandOutV::Brand(b),
{
}

proof fn lemma_resolve_keeps_req(xf: PipeXfDescV, reg: Seq<(Seq<char>, Seq<char>)>, env: BrandEnvV)
    requires
        resolve_xf(xf, reg, env.defns) is Ok,
    ensures
        req_in_spec(resolve_xf(xf, reg, env.defns)->Ok_0, env.defns, env.defasyncs) == req_in_spec(
            xf,
            env.defns,
            env.defasyncs,
        ),
{
}

proof fn lemma_flow_step_walk(cur0: Option<Seq<char>>, st: BrandFlowV, xf: PipeXfDescV, env: BrandEnvV)
    requires
        brand_walk(cur0, st.out, env.defns, env.defasyncs) == Some(st.cur),
        flow_step(st, xf, env) is Ok,
    ensures
        brand_walk(cur0, flow_step(st, xf, env)->Ok_0.out, env.defns, env.defasyncs) == Some(
            flow_step(st, xf, env)->Ok_0.cur,
        ),
{
    let d = env.defns;
    let a = env.defasyncs;
    let p = xf.ptr;
    lemma_resolve_keeps_req(xf, env.reg, env);
    let xo = resolve_xf(xf, env.reg, d)->Ok_0;
    let s1 = match req_in_spec(xf, d, a) {
        BrandInV::Brand(want) => if st.cur is None {
            let v = reg_get(env.reg, want)->0;
            lemma_require_stage_flow(want, v, p, d, a);
            lemma_walk_push(cur0, st.out, require_stage(want, v, p), d, a);
            BrandFlowV { cur: Some(want), out: st.out.push(require_stage(want, v, p)) }
        } else {
            st
        },
        _ => st,
    };
    assert(brand_walk(cur0, s1.out, d, a) == Some(s1.cur));
    lemma_walk_push(cur0, s1.out, xo, d, a);
    let out1 = s1.out.push(xo);
    let cur2 = next_brand(out_spec(xo, d, a).0, s1.cur);
    assert(brand_walk(cur0, out1, d, a) == Some(cur2));
    if env.verify && out_spec(xo, d, a).1 && cur2 is Some {
        let b = cur2->0;
        let v = reg_get(env.reg, b)->0;
        lemma_require_stage_flow(b, v, p, d, a);
        lemma_walk_push(cur0, out1, require_stage(b, v, p), d, a);
    }
}

proof fn lemma_flow_fold_walk(cur0: Option<Seq<char>>, c: Seq<PipeXfDescV>, st0: BrandFlowV, env: BrandEnvV)
    requires
        brand_walk(cur0, st0.out, env.defns, env.defasyncs) == Some(st0.cur),
        flow_fold(c, st0, env) is Ok,
    ensures
        brand_walk(cur0, flow_fold(c, st0, env)->Ok_0.out, env.defns, env.defasyncs) == Some(
            flow_fold(c, st0, env)->Ok_0.cur,
        ),
    decreases c.len(),
{
    if c.len() > 0 {
        lemma_flow_fold_walk(cur0, c.drop_last(), st0, env);
        lemma_flow_step_walk(cur0, flow_fold(c.drop_last(), st0, env)->Ok_0, c.last(), env);
    }
}

/// Brand soundness of the check: when brand typing is on and the check
/// succeeds, the chain it returns carries the source's brand through every
/// stage to the sink, each stage getting items that meet its requirement
/// and the sink getting items of the brand it asks for.
pub proof fn lemma_brand_check_sound(
    p: PipeParsedV,
    reg: Seq<(Seq<char>, Seq<char>)>,
    defns: Seq<(Seq<char>, FnSigV)>,
    defasyncs: Seq<(Seq<char>, FnSigV)>,
)
    requires
        p.cfg.typecheck_item_brands_v1 != 0,
        brand_check_spec(p, reg, defns, defasyncs) is Ok,
    ensures
        match brand_walk(p.src.out_item_brand, brand_check_spec(p, reg, defns, defasyncs)->Ok_0, defns, defasyncs) {
            Some(cur) => sink_req_met(p.sink.in_item_brand, cur),
            None => false,
        },
{
    let env = BrandEnvV {
        reg,
        defns,
        defasyncs,
        auto: p.cfg.auto_require_brand_v1 != 0,
        verify: p.cfg.verify_produced_brands_v1 != 0,
    };
    let c1 = resolve_chain(p.chain, reg, defns)->Ok_0;
    let st0 = flow_init(p.src, env)->Ok_0;
    let cur0 = p.src.out_item_brand;
    match cur0 {
        Some(b) => if env.verify {
            let v = reg_get(reg, b)->0;
            lemma_require_stage_flow(b, v, p.src.ptr, defns, defasyncs);
            lemma_walk_push(cur0, Seq::empty(), require_stage(b, v, p.src.ptr), defns, defasyncs);
            assert(seq![require_stage(b, v, p.src.ptr)] =~= Seq::<PipeXfDescV>::empty().push(require_stage(b, v, p.src.ptr)));
        },
        None => {},
    }
    assert(brand_walk(cur0, st0.out, defns, defasyncs) == Some(st0.cur));
    lemma_flow_fold_walk(cur0, c1, st0, env);
    let st = flow_fold(c1, st0, env)->Ok_0;
    if let Some(BrandInV::Brand(want)) = p.sink.in_item_brand {
        if st.cur is None && env.auto {
            let v = reg_get(reg, want)->0;
            lemma_require_stage_flow(want, v, p.sink.ptr, defns, defasyncs);
            lemma_walk_push(cur0, st.out, require_stage(want, v, p.sink.ptr), defns, defasyncs);
        }
    }
}

} // verus!

//! Binding a parsed pipe's transforms to the stream plugins that run them:
//! the registry lookups with their world checks, and the per-stage plan a
//! pipe helper is generated from.

use vstd::prelude::*;
use crate::compile::{CompileErrorKind, CompilerError};
use crate::pipe_brands::{copy_brand_in, copy_brand_out};
use crate::stream_pipe::{
    xf_descs_view, DeframeOnTruncatedV1, JsonCanonStreamCfgV1, PipeLimitsV1, PipeParsed, PipeParsedV, PipeXfDescV,
    PipeXfDescV1, PipeXfV, PipeXfV1,
};
use crate::stream_plugins::{
    registry_ids, StreamPluginDeterminismV1, StreamPluginRegistryV1, StreamPluginResolvedV, StreamPluginResolvedV1,
};
use crate::text::{concat_str, debug_str, spec_debug_str, str_eq};

verus! {

/// `e` has kind `k` and message `m`, and no diagnostic.
pub open spec fn is_err(e: CompilerError, k: CompileErrorKind, m: Seq<char>) -> bool {
    e.kind == k && e.message@ == m && e.diagnostic is None
}

/// The OS worlds, in which OS-only plugins may run.
pub open spec fn is_os_world(w: Seq<char>) -> bool {
    w == "run-os"@ || w == "run-os-sandboxed"@
}

/// Why plugin `p`, registered as `id`, may not run in `world`: it lists the
/// worlds it allows and `world` is not one, or it is OS-only and `world` is
/// not an OS world.
pub open spec fn plugin_world_error(p: StreamPluginResolvedV, id: Seq<char>, world: Seq<char>, ptr: Seq<char>) -> Option<
    Seq<char>,
> {
    if p.worlds_allowed.len() > 0 && !p.worlds_allowed.contains(world) {
        Some(
            "E_PIPE_PLUGIN_WORLD_VIOLATION: stream plugin_id "@ + spec_debug_str(id) + " is not allowed in world "@
                + world + " (ptr="@ + ptr + ")"@,
        )
    } else if p.determinism == StreamPluginDeterminismV1::NondetOsOnlyV1 && !is_os_world(world) {
        Some(
            "E_PIPE_PLUGIN_WORLD_VIOLATION: OS-only stream plugin_id "@ + spec_debug_str(id)
                + " is not allowed in solve worlds (ptr="@ + ptr + ")"@,
        )
    } else {
        None
    }
}

pub open spec fn plugin_not_found(id: Seq<char>, ptr: Seq<char>) -> Seq<char> {
    "E_PIPE_PLUGIN_NOT_FOUND: stream plugin_id "@ + spec_debug_str(id)
        + " is not declared in arch/stream/plugins/index.x07sp.json (ptr="@ + ptr + ")"@
}

/// The registry's entries, `None` when no registry could be loaded (no
/// architecture root was given).
pub open spec fn reg_entries(registry: Option<&StreamPluginRegistryV1>) -> Option<
    Seq<(String, StreamPluginResolvedV1)>,
> {
    match registry {
        Some(r) => Some(r.by_id@),
        None => None,
    }
}

pub open spec fn reg_wf(registry: Option<&StreamPluginRegistryV1>) -> bool {
    match registry {
        Some(r) => r.wf(),
        None => true,
    }
}

/// Where plugin `id` stands in the registry, or the error that finding it
/// for `world` gives: no registry (`no_registry` is the message), an
/// unknown id, or a world the plugin may not run in.
pub open spec fn lookup_plugin_spec(
    reg: Option<Seq<(String, StreamPluginResolvedV1)>>,
    id: Seq<char>,
    world: Seq<char>,
    ptr: Seq<char>,
    no_registry: Seq<char>,
) -> Result<int, (CompileErrorKind, Seq<char>)> {
    match reg {
        None => Err((CompileErrorKind::Typing, no_registry)),
        Some(v) => if !registry_ids(v).contains(id) {
            Err((CompileErrorKind::Typing, plugin_not_found(id, ptr)))
        } else {
            let i = registry_ids(v).index_of(id);
            match plugin_world_error(v[i].1@, id, world, ptr) {
                Some(m) => Err((CompileErrorKind::Unsupported, m)),
                None => Ok(i),
            }
        },
    }
}

fn err(kind: CompileErrorKind, m: String) -> (e: CompilerError)
    ensures
        is_err(e, kind, m@),
{
    CompilerError::new(kind, m)
}

fn cat(a: String, b: &str) -> (r: String)
    ensures
        r@ == a@ + b@,
{
    concat_str(a.as_str(), b)
}

fn contains_str(v: &Vec<String>, s: &str) -> (r: bool)
    ensures
        r == Seq::new(v@.len(), |i: int| v@[i]@).contains(s@),
{
    let ghost sv = Seq::new(v@.len(), |i: int| v@[i]@);
    let mut i: usize = 0;
    while i < v.len()
        invariant
            i <= v@.len(),
            sv == Seq::new(v@.len(), |i: int| v@[i]@),
            forall|k: int| 0 <= k < i ==> sv[k] != s@,
        decreases v.len() - i,
    {
        if str_eq(v[i].as_str(), s) {
            assert(sv[i as int] == s@);
            return true;
        }
        i = i + 1;
    }
    false
}

/// Refuses plugin `p`, registered as `plugin_id`, in a world it may not run
/// in.
pub fn check_plugin_world_v1(p: &StreamPluginResolvedV1, plugin_id: &str, world: &str, ptr: &str) -> (r: Result<
    (),
    CompilerError,
>)
    ensures
        match plugin_world_error(p@, plugin_id@, world@, ptr@) {
            None => r is Ok,
            Some(m) => r matches Err(e) && is_err(e, CompileErrorKind::Unsupported, m),
        },
{
    if p.worlds_allowed.len() > 0 && !contains_str(&p.worlds_allowed, world) {
        let m = cat("E_PIPE_PLUGIN_WORLD_VIOLATION: stream plugin_id ".to_string(), debug_str(plugin_id).as_str());
        let m = cat(cat(cat(m, " is not allowed in world "), world), " (ptr=");
        return Err(err(CompileErrorKind::Unsupported, cat(cat(m, ptr), ")")));
    }
    let os_only = match p.determinism {
        StreamPluginDeterminismV1::NondetOsOnlyV1 => true,
        StreamPluginDeterminismV1::DeterministicV1 => false,
    };
    if os_only && !(str_eq(world, "run-os") || str_eq(world, "run-os-sandboxed")) {
        let m = cat(
            "E_PIPE_PLUGIN_WORLD_VIOLATION: OS-only stream plugin_id ".to_string(),
            debug_str(plugin_id).as_str(),
        );
        let m = cat(cat(m, " is not allowed in solve worlds (ptr="), ptr);
        return Err(err(CompileErrorKind::Unsupported, cat(m, ")")));
    }
    Ok(())
}

/// Where `plugin_id` stands in the registry, if it is registered.
fn registry_index(reg: &StreamPluginRegistryV1, plugin_id: &str) -> (r: Option<usize>)
    requires
        reg.wf(),
    ensures
        match r {
            Some(i) => registry_ids(reg.by_id@).contains(plugin_id@) && i as int == registry_ids(
                reg.by_id@,
            ).index_of(plugin_id@) && i < reg.by_id@.len(),
            None => !registry_ids(reg.by_id@).contains(plugin_id@),
        },
{
    let ghost ids = registry_ids(reg.by_id@);
    let mut i: usize = 0;
    while i < reg.by_id.len()
        invariant
            i <= reg.by_id@.len(),
            reg.wf(),
            ids == registry_ids(reg.by_id@),
            forall|k: int| 0 <= k < i ==> ids[k] != plugin_id@,
        decreases reg.by_id.len() - i,
    {
        if str_eq(reg.by_id[i].0.as_str(), plugin_id) {
            proof {
                assert(ids[i as int] == plugin_id@);
                assert(ids.contains(plugin_id@));
                let j = ids.index_of(plugin_id@);
                assert(0 <= j < ids.len() && ids[j] == plugin_id@);
                assert(ids.no_duplicates());
            }
            return Some(i);
        }
        i = i + 1;
    }
    None
}

/// Finds plugin `plugin_id` for a stage at `ptr` in `world`; `no_registry`
/// is the message when there is no registry.
pub fn lookup_stream_plugin_v1(
    registry: Option<&StreamPluginRegistryV1>,
    plugin_id: &str,
    world: &str,
    ptr: &str,
    no_registry: &str,
) -> (r: Result<usize, CompilerError>)
    requires
        reg_wf(registry),
    ensures
        match lookup_plugin_spec(reg_entries(registry), plugin_id@, world@, ptr@, no_registry@) {
            Ok(i) => r matches Ok(j) && j as int == i,
            Err((k, m)) => r matches Err(e) && is_err(e, k, m),
        },
{
    let reg = match registry {
        None => {
            return Err(err(CompileErrorKind::Typing, no_registry.to_string()));
        },
        Some(reg) => reg,
    };
    match registry_index(reg, plugin_id) {
        None => {
            let m = cat("E_PIPE_PLUGIN_NOT_FOUND: stream plugin_id ".to_string(), debug_str(plugin_id).as_str());
            let m = cat(cat(m, " is not declared in arch/stream/plugins/index.x07sp.json (ptr="), ptr);
            Err(err(CompileErrorKind::Typing, cat(m, ")")))
        },
        Some(i) => {
            check_plugin_world_v1(&reg.by_id[i].1, plugin_id, world, ptr)?;
            Ok(i)
        },
    }
}

// ---------------------------------------------------------------------------
// Resolving `std.stream.xf.plugin_v1` stages.

pub open spec fn is_plugin_stage(x: PipeXfDescV) -> bool {
    x.kind is PluginV1
}

/// Whether some stage of the chain is a `plugin_v1` stage.
pub open spec fn has_plugin_stage(chain: Seq<PipeXfDescV>) -> bool {
    exists|i: int| 0 <= i < chain.len() && is_plugin_stage(#[trigger] chain[i])
}

pub open spec fn resolve_no_registry() -> Seq<char> {
    "E_PIPE_PLUGIN_NEEDS_ARCH_ROOT: std.stream.xf.plugin_v1 requires compile_options.arch_root"@
}

/// The first error met resolving the `plugin_v1` stages of `chain[..n]`.
pub open spec fn resolve_error_upto(
    chain: Seq<PipeXfDescV>,
    n: int,
    reg: Option<Seq<(String, StreamPluginResolvedV1)>>,
    world: Seq<char>,
) -> Option<(CompileErrorKind, Seq<char>)>
    decreases n,
{
    if n <= 0 {
        None
    } else {
        match resolve_error_upto(chain, n - 1, reg, world) {
            Some(e) => Some(e),
            None => {
                let x = chain[n - 1];
                match x.kind {
                    PipeXfV::PluginV1 { plugin_id, .. } => match lookup_plugin_spec(
                        reg,
                        plugin_id,
                        world,
                        x.ptr,
                        resolve_no_registry(),
                    ) {
                        Err(e) => Some(e),
                        Ok(_) => None,
                    },
                    _ => None,
                }
            },
        }
    }
}

/// Stage `x` after resolution: a `plugin_v1` stage takes the item brands
/// of plugin `p` (the one registered under its id).
pub open spec fn resolved_stage(x: PipeXfDescV, reg: Seq<(String, StreamPluginResolvedV1)>) -> PipeXfDescV {
    match x.kind {
        PipeXfV::PluginV1 { plugin_id, .. } => {
            let p = reg[registry_ids(reg).index_of(plugin_id)].1@;
            PipeXfDescV { in_item_brand: Some(p.in_item_brand), out_item_brand: Some(p.out_item_brand), ..x }
        },
        _ => x,
    }
}

fn chain_has_plugin_stage(chain: &Vec<PipeXfDescV1>) -> (r: bool)
    ensures
        r == has_plugin_stage(xf_descs_view(chain@)),
{
    let ghost cv = xf_descs_view(chain@);
    let mut i: usize = 0;
    while i < chain.len()
        invariant
            i <= chain@.len(),
            cv == xf_descs_view(chain@),
            forall|k: int| 0 <= k < i ==> !is_plugin_stage(#[trigger] cv[k]),
        decreases chain.len() - i,
    {
        if let PipeXfV1::PluginV1 { .. } = &chain[i].kind {
            assert(is_plugin_stage(cv[i as int]));
            return true;
        }
        i = i + 1;
    }
    false
}

/// Binds every `plugin_v1` stage to its registered plugin for `world`,
/// setting the stage's item brands to the plugin's. Without such a stage
/// nothing is looked up. Without a registry, with an unknown id or with a
/// plugin the world does not allow, the first such error is returned and
/// the pipe is left as it was.
#[verifier::rlimit(40)]
pub fn resolve_stream_plugins_v1(
    pipe: &mut PipeParsed,
    registry: Option<&StreamPluginRegistryV1>,
    world: &str,
) -> (r: Result<(), CompilerError>)
    requires
        reg_wf(registry),
    ensures
        !has_plugin_stage(xf_descs_view(old(pipe).chain@)) ==> r is Ok && *final(pipe) == *old(pipe),
        has_plugin_stage(xf_descs_view(old(pipe).chain@)) ==> match resolve_error_upto(
            xf_descs_view(old(pipe).chain@),
            old(pipe).chain@.len() as int,
            reg_entries(registry),
            world@,
        ) {
            Some((k, m)) => r matches Err(e) && is_err(e, k, m) && *final(pipe) == *old(pipe),
            None => r is Ok && reg_entries(registry) is Some && final(pipe).cfg == old(pipe).cfg && final(pipe).src
                == old(pipe).src && final(pipe).sink == old(pipe).sink && final(pipe).params == old(pipe).params
                && xf_descs_view(final(pipe).chain@) == Seq::new(
                old(pipe).chain@.len(),
                |i: int| resolved_stage(xf_descs_view(old(pipe).chain@)[i], reg_entries(registry)->0),
            ),
        },
{
    let ghost cv = xf_descs_view(pipe.chain@);
    if !chain_has_plugin_stage(&pipe.chain) {
        return Ok(());
    }
    let reg = match registry {
        None => {
            proof {
                lemma_resolve_no_registry(cv, reg_entries(registry), world@);
            }
            return Err(err(CompileErrorKind::Typing, resolve_no_registry_msg()));
        },
        Some(reg) => reg,
    };
    // Every plugin stage is looked up before any is changed.
    let mut i: usize = 0;
    while i < pipe.chain.len()
        invariant
            i <= pipe.chain@.len(),
            cv == xf_descs_view(pipe.chain@),
            reg.wf(),
            registry == Some(reg),
            resolve_error_upto(cv, i as int, reg_entries(registry), world@) is None,
        decreases pipe.chain.len() - i,
    {
        let x = &pipe.chain[i];
        if let PipeXfV1::PluginV1 { plugin_id, .. } = &x.kind {
            let found = lookup_stream_plugin_v1(
                registry,
                plugin_id.as_str(),
                world,
                x.ptr.as_str(),
                "E_PIPE_PLUGIN_NEEDS_ARCH_ROOT: std.stream.xf.plugin_v1 requires compile_options.arch_root",
            );
            if let Err(e) = found {
                proof {
                    lemma_resolve_error_stays(cv, i as int + 1, cv.len() as int, reg_entries(registry), world@);
                }
                return Err(e);
            }
        }
        i = i + 1;
    }
    let ghost old_pipe = *pipe;
    let mut rest: Vec<PipeXfDescV1> = Vec::new();
    std::mem::swap(&mut rest, &mut pipe.chain);
    let ghost n = rest@.len();
    let mut done: Vec<PipeXfDescV1> = Vec::new();
    let mut j: usize = 0;
    while rest.len() > 0
        invariant
            j + rest@.len() == n,
            n == cv.len(),
            n <= usize::MAX,
            reg.wf(),
            registry == Some(reg),
            resolve_error_upto(cv, n as int, reg_entries(registry), world@) is None,
            forall|k: int| 0 <= k < rest@.len() ==> #[trigger] rest@[k]@ == cv[j + k],
            done@.len() == j,
            forall|k: int| 0 <= k < j ==> #[trigger] done@[k]@ == resolved_stage(cv[k], reg.by_id@),
        decreases rest@.len(),
    {
        let ghost before = rest@;
        let d = rest.remove(0);
        assert(d@ == cv[j as int]);
        proof {
            assert forall|k: int| 0 <= k < rest@.len() implies #[trigger] rest@[k]@ == cv[j + 1 + k] by {
                assert(rest@[k] == before[k + 1]);
            }
        }
        let next = match &d.kind {
            PipeXfV1::PluginV1 { plugin_id, .. } => {
                proof {
                    lemma_resolve_ok_at(cv, j as int, n as int, reg_entries(registry), world@);
                }
                let at = registry_index(reg, plugin_id.as_str());
                match at {
                    Some(at) => {
                        let p = &reg.by_id[at].1;
                        let PipeXfDescV1 { kind, ptr, .. } = d;
                        PipeXfDescV1 {
                            kind,
                            in_item_brand: Some(copy_brand_in(&p.in_item_brand)),
                            out_item_brand: Some(copy_brand_out(&p.out_item_brand)),
                            ptr,
                        }
                    },
                    None => d,
                }
            },
            _ => d,
        };
        done.push(next);
        j = j + 1;
    }
    pipe.chain = done;
    proof {
        assert(xf_descs_view(pipe.chain@) =~= Seq::new(
            n,
            |i: int| resolved_stage(cv[i], reg.by_id@),
        ));
    }
    Ok(())
}

fn resolve_no_registry_msg() -> (r: String)
    ensures
        r@ == resolve_no_registry(),
{
    "E_PIPE_PLUGIN_NEEDS_ARCH_ROOT: std.stream.xf.plugin_v1 requires compile_options.arch_root".to_string()
}

proof fn lemma_resolve_error_stays(
    chain: Seq<PipeXfDescV>,
    m: int,
    n: int,
    reg: Option<Seq<(String, StreamPluginResolvedV1)>>,
    world: Seq<char>,
)
    requires
        0 <= m <= n,
        resolve_error_upto(chain, m, reg, world) is Some,
    ensures
        resolve_error_upto(chain, n, reg, world) == resolve_error_upto(chain, m, reg, world),
    decreases n - m,
{
    if n > m {
        lemma_resolve_error_stays(chain, m, n - 1, reg, world);
    }
}

proof fn lemma_resolve_none_prefix(
    chain: Seq<PipeXfDescV>,
    m: int,
    n: int,
    reg: Option<Seq<(String, StreamPluginResolvedV1)>>,
    world: Seq<char>,
)
    requires
        0 <= m <= n,
        resolve_error_upto(chain, n, reg, world) is None,
    ensures
        resolve_error_upto(chain, m, reg, world) is None,
    decreases n - m,
{
    if n > m {
        lemma_resolve_none_prefix(chain, m, n - 1, reg, world);
    }
}

proof fn lemma_resolve_ok_at(
    chain: Seq<PipeXfDescV>,
    j: int,
    n: int,
    reg: Option<Seq<(String, StreamPluginResolvedV1)>>,
    world: Seq<char>,
)
    requires
        0 <= j < n,
        resolve_error_upto(chain, n, reg, world) is None,
    ensures
        chain[j].kind matches PipeXfV::PluginV1 { plugin_id, .. } ==> reg matches Some(v) && registry_ids(
            v,
        ).contains(plugin_id),
{
    lemma_resolve_none_prefix(chain, j + 1, n, reg, world);
}

proof fn lemma_resolve_no_registry(
    chain: Seq<PipeXfDescV>,
    reg: Option<Seq<(String, StreamPluginResolvedV1)>>,
    world: Seq<char>,
)
    requires
        reg is None,
        has_plugin_stage(chain),
    ensures
        resolve_error_upto(chain, chain.len() as int, reg, world) == Some(
            (CompileErrorKind::Typing, resolve_no_registry()),
        ),
{
    let k = choose|i: int| 0 <= i < chain.len() && is_plugin_stage(#[trigger] chain[i]);
    lemma_first_plugin_error(chain, k, reg, world);
}

proof fn lemma_first_plugin_error(
    chain: Seq<PipeXfDescV>,
    k: int,
    reg: Option<Seq<(String, StreamPluginResolvedV1)>>,
    world: Seq<char>,
)
    requires
        reg is None,
        0 <= k < chain.len(),
        is_plugin_stage(chain[k]),
    ensures
        resolve_error_upto(chain, chain.len() as int, reg, world) == Some(
            (CompileErrorKind::Typing, resolve_no_registry()),
        ),
{
    lemma_no_registry_upto(chain, chain.len() as int, reg, world);
    lemma_no_registry_hit(chain, k + 1, reg, world);
    lemma_resolve_error_stays(chain, k + 1, chain.len() as int, reg, world);
}

proof fn lemma_no_registry_upto(
    chain: Seq<PipeXfDescV>,
    n: int,
    reg: Option<Seq<(String, StreamPluginResolvedV1)>>,
    world: Seq<char>,
)
    requires
        reg is None,
        0 <= n <= chain.len(),
    ensures
        resolve_error_upto(chain, n, reg, world) is None || resolve_error_upto(chain, n, reg, world) == Some(
            (CompileErrorKind::Typing, resolve_no_registry()),
        ),
    decreases n,
{
    if n > 0 {
        lemma_no_registry_upto(chain, n - 1, reg, world);
    }
}

proof fn lemma_no_registry_hit(
    chain: Seq<PipeXfDescV>,
    n: int,
    reg: Option<Seq<(String, StreamPluginResolvedV1)>>,
    world: Seq<char>,
)
    requires
        reg is None,
        1 <= n <= chain.len(),
        is_plugin_stage(chain[n - 1]),
    ensures
        resolve_error_upto(chain, n, reg, world) == Some((CompileErrorKind::Typing, resolve_no_registry())),
{
    lemma_no_registry_upto(chain, n - 1, reg, world);
}


// ---------------------------------------------------------------------------
// The per-stage plan of a pipe helper.

/// One 32-bit little-endian word of a plugin's configuration bytes: a pipe
/// parameter or a constant.
#[derive(Debug, Clone, Copy, PartialEq, Eq, Structural)]
pub enum CfgWordV1 {
    Param(usize),
    Int(i32),
}

/// How a plugin stage's configuration bytes are made: from words, empty,
/// or passed whole as a pipe parameter.
#[derive(Debug, PartialEq, Eq)]
pub enum PluginCfgV1 {
    Words(Vec<CfgWordV1>),
    Empty,
    FromParam(usize),
}

pub enum PluginCfgV {
    Words(Seq<CfgWordV1>),
    Empty,
    FromParam(usize),
}

impl View for PluginCfgV1 {
    type V = PluginCfgV;

    open spec fn view(&self) -> PluginCfgV {
        match self {
            PluginCfgV1::Words(w) => PluginCfgV::Words(w@),
            PluginCfgV1::Empty => PluginCfgV::Empty,
            PluginCfgV1::FromParam(p) => PluginCfgV::FromParam(*p),
        }
    }
}

/// How a plugin's error codes are reported.
#[derive(Debug, Clone, Copy, PartialEq, Eq, Structural)]
pub enum PluginErrMapV1 {
    SplitLinesV1,
    FrameU32LeV1,
    DeframeU32LeV1,
    JsonCanonStreamV1,
    Generic,
}

/// What a stage needs set up in the helper: nothing, a brand check
/// counter, a take counter, a scratch buffer, a plugin (by its place in the
/// registry) or a parallel map with its slot table size (`None` when
/// `4 * max_inflight` overflows).
#[derive(Debug, PartialEq, Eq)]
pub enum StagePlanV1 {
    Stateless,
    RequireBrand,
    Take { n_param: usize },
    MapInPlace { scratch_cap_bytes: i32 },
    Plugin { plugin_at: usize, cfg: PluginCfgV1, strict_cfg_canon: i32, err_map: PluginErrMapV1 },
    ParMap { unordered: bool, result_bytes: bool, tracks_inflight_bytes: bool, slots_cap_bytes: Option<i32> },
}

pub enum StagePlanV {
    Stateless,
    RequireBrand,
    Take { n_param: usize },
    MapInPlace { scratch_cap_bytes: i32 },
    Plugin { plugin_at: int, cfg: PluginCfgV, strict_cfg_canon: i32, err_map: PluginErrMapV1 },
    ParMap { unordered: bool, result_bytes: bool, tracks_inflight_bytes: bool, slots_cap_bytes: Option<i32> },
}

impl View for StagePlanV1 {
    type V = StagePlanV;

    open spec fn view(&self) -> StagePlanV {
        match self {
            StagePlanV1::Stateless => StagePlanV::Stateless,
            StagePlanV1::RequireBrand => StagePlanV::RequireBrand,
            StagePlanV1::Take { n_param } => StagePlanV::Take { n_param: *n_param },
            StagePlanV1::MapInPlace { scratch_cap_bytes } => StagePlanV::MapInPlace {
                scratch_cap_bytes: *scratch_cap_bytes,
            },
            StagePlanV1::Plugin { plugin_at, cfg, strict_cfg_canon, err_map } => StagePlanV::Plugin {
                plugin_at: *plugin_at as int,
                cfg: cfg@,
                strict_cfg_canon: *strict_cfg_canon,
                err_map: *err_map,
            },
            StagePlanV1::ParMap { unordered, result_bytes, tracks_inflight_bytes, slots_cap_bytes } => StagePlanV::ParMap {
                unordered: *unordered,
                result_bytes: *result_bytes,
                tracks_inflight_bytes: *tracks_inflight_bytes,
                slots_cap_bytes: *slots_cap_bytes,
            },
        }
    }
}

pub open spec fn plans_view(v: Seq<StagePlanV1>) -> Seq<StagePlanV> {
    Seq::new(v.len(), |i: int| v[i]@)
}

/// The stage plans, or a configuration the helper reports as invalid at
/// run time (`stream:json_canon_cfg_invalid`).
#[derive(Debug, PartialEq, Eq)]
pub enum PipeStagesOutcomeV1 {
    Planned(Vec<StagePlanV1>),
    CfgInvalid,
}

pub enum PipeStagesOutcomeV {
    Planned(Seq<StagePlanV>),
    CfgInvalid,
}

impl View for PipeStagesOutcomeV1 {
    type V = PipeStagesOutcomeV;

    open spec fn view(&self) -> PipeStagesOutcomeV {
        match self {
            PipeStagesOutcomeV1::Planned(v) => PipeStagesOutcomeV::Planned(plans_view(v@)),
            PipeStagesOutcomeV1::CfgInvalid => PipeStagesOutcomeV::CfgInvalid,
        }
    }
}

pub open spec fn pipe_no_registry() -> Seq<char> {
    "E_PIPE_STREAM_PLUGINS_NEEDS_ARCH_ROOT: std.stream.pipe_v1 requires compile_options.arch_root for plugin-backed xfs"@
}

pub open spec fn unresolved_plugin() -> Seq<char> {
    "internal error: stream plugin stage not resolved"@
}

/// A built-in plugin-backed stage: the plugin registered as `id`, checked
/// for `world`.
pub open spec fn builtin_plugin_stage(
    reg: Option<Seq<(String, StreamPluginResolvedV1)>>,
    id: Seq<char>,
    world: Seq<char>,
    ptr: Seq<char>,
    cfg: PluginCfgV,
    err_map: PluginErrMapV1,
) -> Result<Option<StagePlanV>, (CompileErrorKind, Seq<char>)> {
    match lookup_plugin_spec(reg, id, world, ptr, pipe_no_registry()) {
        Err(e) => Err(e),
        Ok(i) => Ok(Some(StagePlanV::Plugin { plugin_at: i, cfg, strict_cfg_canon: 0, err_map })),
    }
}

pub open spec fn on_truncated_code(o: DeframeOnTruncatedV1) -> i32 {
    match o {
        DeframeOnTruncatedV1::Error => 0,
        DeframeOnTruncatedV1::Drop => 1,
    }
}

pub open spec fn or_default(v: i32, d: i32) -> i32 {
    if v > 0 {
        v
    } else {
        d
    }
}

/// The JSON canonicalizer's configuration words, each limit left at 0
/// taking its default (depth 64, the pipe's input limit, 4096 members,
/// the output limit up to 4 MiB, the chunk size), or `None` when a limit
/// is still not positive.
pub open spec fn json_canon_words(j: JsonCanonStreamCfgV1, l: PipeLimitsV1) -> Option<Seq<CfgWordV1>> {
    let max_depth = or_default(j.max_depth, 64);
    let total = or_default(j.max_total_json_bytes, l.max_in_bytes);
    let members = or_default(j.max_object_members, 4096);
    let obj_total = or_default(
        j.max_object_total_bytes,
        if l.max_out_bytes < 4194304 {
            l.max_out_bytes
        } else {
            4194304
        },
    );
    let emit = or_default(j.emit_chunk_max_bytes, l.chunk_max_bytes);
    if max_depth <= 0 || total <= 0 || members <= 0 || obj_total <= 0 || emit <= 0 {
        None
    } else {
        Some(
            seq![
                CfgWordV1::Int(max_depth),
                CfgWordV1::Int(total),
                CfgWordV1::Int(members),
                CfgWordV1::Int(obj_total),
                CfgWordV1::Int(emit),
            ],
        )
    }
}

/// The plan of one stage; `Ok(None)` is an invalid JSON canonicalizer
/// configuration.
pub open spec fn stage_spec(
    x: PipeXfDescV,
    l: PipeLimitsV1,
    reg: Option<Seq<(String, StreamPluginResolvedV1)>>,
    world: Seq<char>,
) -> Result<Option<StagePlanV>, (CompileErrorKind, Seq<char>)> {
    match x.kind {
        PipeXfV::MapBytes { .. } => Ok(Some(StagePlanV::Stateless)),
        PipeXfV::Filter { .. } => Ok(Some(StagePlanV::Stateless)),
        PipeXfV::RequireBrandV1 { .. } => Ok(Some(StagePlanV::RequireBrand)),
        PipeXfV::Take { n_param } => Ok(Some(StagePlanV::Take { n_param })),
        PipeXfV::MapInPlaceBufV1 { scratch_cap_bytes, .. } => Ok(Some(StagePlanV::MapInPlace { scratch_cap_bytes })),
        PipeXfV::SplitLines { delim_param, max_line_bytes_param } => builtin_plugin_stage(
            reg,
            "xf.split_lines_v1"@,
            world,
            x.ptr,
            PluginCfgV::Words(seq![CfgWordV1::Param(delim_param), CfgWordV1::Param(max_line_bytes_param)]),
            PluginErrMapV1::SplitLinesV1,
        ),
        PipeXfV::FrameU32Le => builtin_plugin_stage(
            reg,
            "xf.frame_u32le_v1"@,
            world,
            x.ptr,
            PluginCfgV::Empty,
            PluginErrMapV1::FrameU32LeV1,
        ),
        PipeXfV::DeframeU32LeV1 { cfg } => builtin_plugin_stage(
            reg,
            "xf.deframe_u32le_v1"@,
            world,
            x.ptr,
            PluginCfgV::Words(
                seq![
                    CfgWordV1::Int(cfg.max_frame_bytes),
                    CfgWordV1::Int(cfg.max_frames),
                    CfgWordV1::Int(cfg.allow_empty),
                    CfgWordV1::Int(on_truncated_code(cfg.on_truncated)),
                ],
            ),
            PluginErrMapV1::DeframeU32LeV1,
        ),
        PipeXfV::JsonCanonStreamV1 { cfg } => match lookup_plugin_spec(
            reg,
            "xf.json_canon_stream_v1"@,
            world,
            x.ptr,
            pipe_no_registry(),
        ) {
            Err(e) => Err(e),
            Ok(i) => match json_canon_words(cfg, l) {
                None => Ok(None),
                Some(w) => Ok(
                    Some(
                        StagePlanV::Plugin {
                            plugin_at: i,
                            cfg: PluginCfgV::Words(w),
                            strict_cfg_canon: 0,
                            err_map: PluginErrMapV1::JsonCanonStreamV1,
                        },
                    ),
                ),
            },
        },
        PipeXfV::PluginV1 { plugin_id, cfg_param, strict_cfg_canon, .. } => match reg {
            Some(v) => if registry_ids(v).contains(plugin_id) {
                Ok(
                    Some(
                        StagePlanV::Plugin {
                            plugin_at: registry_ids(v).index_of(plugin_id),
                            cfg: PluginCfgV::FromParam(cfg_param),
                            strict_cfg_canon,
                            err_map: PluginErrMapV1::Generic,
                        },
                    ),
                )
            } else {
                Err((CompileErrorKind::Internal, unresolved_plugin()))
            },
            None => Err((CompileErrorKind::Internal, unresolved_plugin())),
        },
        PipeXfV::ParMapStreamV1 { cfg } => {
            let cap = cfg.max_inflight * 4;
            Ok(
                Some(
                    StagePlanV::ParMap {
                        unordered: cfg.unordered,
                        result_bytes: cfg.result_bytes,
                        tracks_inflight_bytes: cfg.max_inflight_in_bytes > 0,
                        slots_cap_bytes: if i32::MIN <= cap <= i32::MAX {
                            Some(cap as i32)
                        } else {
                            None
                        },
                    },
                ),
            )
        },
    }
}

/// The plans of `chain[..n]`, stopping at the first error or invalid
/// configuration.
pub open spec fn stages_upto(
    chain: Seq<PipeXfDescV>,
    n: int,
    l: PipeLimitsV1,
    reg: Option<Seq<(String, StreamPluginResolvedV1)>>,
    world: Seq<char>,
) -> Result<Option<Seq<StagePlanV>>, (CompileErrorKind, Seq<char>)>
    decreases n,
{
    if n <= 0 {
        Ok(Some(Seq::empty()))
    } else {
        match stages_upto(chain, n - 1, l, reg, world) {
            Err(e) => Err(e),
            Ok(None) => Ok(None),
            Ok(Some(ps)) => match stage_spec(chain[n - 1], l, reg, world) {
                Err(e) => Err(e),
                Ok(None) => Ok(None),
                Ok(Some(p)) => Ok(Some(ps.push(p))),
            },
        }
    }
}

pub open spec fn is_par_map(p: StagePlanV) -> bool {
    p is ParMap
}

pub open spec fn par_map_count(ps: Seq<StagePlanV>) -> nat
    decreases ps.len(),
{
    if ps.len() == 0 {
        0
    } else {
        par_map_count(ps.drop_last()) + if is_par_map(ps.last()) {
            1nat
        } else {
            0nat
        }
    }
}

pub open spec fn has_unordered_par_map(ps: Seq<StagePlanV>) -> bool {
    exists|i: int| 0 <= i < ps.len() && #[trigger] ps[i] matches StagePlanV::ParMap { unordered: true, .. }
}

pub open spec fn has_overflowing_par_map(ps: Seq<StagePlanV>) -> bool {
    exists|i: int| 0 <= i < ps.len() && #[trigger] ps[i] matches StagePlanV::ParMap { slots_cap_bytes: None, .. }
}

/// The stage plans of a pipe with limits `l`, or the first error: a stage
/// error in chain order, more than one parallel map, an unordered parallel
/// map without `allow_nondet_v1`, or a slot table too large.
pub open spec fn stages_outcome(
    p: PipeParsedV,
    l: PipeLimitsV1,
    reg: Option<Seq<(String, StreamPluginResolvedV1)>>,
    world: Seq<char>,
) -> Result<PipeStagesOutcomeV, (CompileErrorKind, Seq<char>)> {
    match stages_upto(p.chain, p.chain.len() as int, l, reg, world) {
        Err(e) => Err(e),
        Ok(None) => Ok(PipeStagesOutcomeV::CfgInvalid),
        Ok(Some(ps)) => if par_map_count(ps) > 1 {
            Err((CompileErrorKind::Typing, "std.stream.pipe_v1 supports at most one par_map stream stage"@))
        } else if p.cfg.allow_nondet_v1 == 0 && has_unordered_par_map(ps) {
            Err(
                (
                    CompileErrorKind::Typing,
                    "X07E_PIPE_NDET_NOT_ALLOWED: unordered par_map stages require allow_nondet_v1=1"@,
                ),
            )
        } else if has_overflowing_par_map(ps) {
            Err((CompileErrorKind::Typing, "par_map_stream cap overflow"@))
        } else {
            Ok(PipeStagesOutcomeV::Planned(ps))
        },
    }
}

fn no_registry_msg() -> (r: String)
    ensures
        r@ == pipe_no_registry(),
{
    "E_PIPE_STREAM_PLUGINS_NEEDS_ARCH_ROOT: std.stream.pipe_v1 requires compile_options.arch_root for plugin-backed xfs".to_string()
}

fn builtin_plugin(
    registry: Option<&StreamPluginRegistryV1>,
    id: &str,
    world: &str,
    ptr: &str,
    cfg: PluginCfgV1,
    err_map: PluginErrMapV1,
) -> (r: Result<Option<StagePlanV1>, CompilerError>)
    requires
        reg_wf(registry),
    ensures
        match builtin_plugin_stage(reg_entries(registry), id@, world@, ptr@, cfg@, err_map) {
            Ok(o) => r matches Ok(x) && match (o, x) {
                (Some(a), Some(b)) => b@ == a,
                (None, None) => true,
                _ => false,
            },
            Err((k, m)) => r matches Err(e) && is_err(e, k, m),
        },
{
    let nr = no_registry_msg();
    match lookup_stream_plugin_v1(registry, id, world, ptr, nr.as_str()) {
        Err(e) => Err(e),
        Ok(i) => {
            Ok(Some(StagePlanV1::Plugin { plugin_at: i, cfg, strict_cfg_canon: 0, err_map }))
        },
    }
}

fn or_default_exec(v: i32, d: i32) -> (r: i32)
    ensures
        r == or_default(v, d),
{
    if v > 0 {
        v
    } else {
        d
    }
}

/// The plan of one stage of a pipe with limits `limits`.
#[verifier::rlimit(40)]
pub fn plan_stage_v1(
    x: &PipeXfDescV1,
    limits: &PipeLimitsV1,
    registry: Option<&StreamPluginRegistryV1>,
    world: &str,
) -> (r: Result<Option<StagePlanV1>, CompilerError>)
    requires
        reg_wf(registry),
    ensures
        match stage_spec(x@, *limits, reg_entries(registry), world@) {
            Ok(o) => r matches Ok(y) && match (o, y) {
                (Some(a), Some(b)) => b@ == a,
                (None, None) => true,
                _ => false,
            },
            Err((k, m)) => r matches Err(e) && is_err(e, k, m),
        },
{
    let ptr = x.ptr.as_str();
    match &x.kind {
        PipeXfV1::MapBytes { .. } => Ok(Some(StagePlanV1::Stateless)),
        PipeXfV1::Filter { .. } => Ok(Some(StagePlanV1::Stateless)),
        PipeXfV1::RequireBrandV1 { .. } => Ok(Some(StagePlanV1::RequireBrand)),
        PipeXfV1::Take { n_param } => Ok(Some(StagePlanV1::Take { n_param: *n_param })),
        PipeXfV1::MapInPlaceBufV1 { scratch_cap_bytes, .. } => Ok(
            Some(StagePlanV1::MapInPlace { scratch_cap_bytes: *scratch_cap_bytes }),
        ),
        PipeXfV1::SplitLines { delim_param, max_line_bytes_param } => {
            let w = vec![CfgWordV1::Param(*delim_param), CfgWordV1::Param(*max_line_bytes_param)];
            assert(w@ =~= seq![CfgWordV1::Param(*delim_param), CfgWordV1::Param(*max_line_bytes_param)]);
            builtin_plugin(
                registry,
                "xf.split_lines_v1",
                world,
                ptr,
                PluginCfgV1::Words(w),
                PluginErrMapV1::SplitLinesV1,
            )
        },
        PipeXfV1::FrameU32Le => builtin_plugin(
            registry,
            "xf.frame_u32le_v1",
            world,
            ptr,
            PluginCfgV1::Empty,
            PluginErrMapV1::FrameU32LeV1,
        ),
        PipeXfV1::DeframeU32LeV1 { cfg } => {
            let on_truncated: i32 = match cfg.on_truncated {
                DeframeOnTruncatedV1::Error => 0,
                DeframeOnTruncatedV1::Drop => 1,
            };
            let w = vec![
                CfgWordV1::Int(cfg.max_frame_bytes),
                CfgWordV1::Int(cfg.max_frames),
                CfgWordV1::Int(cfg.allow_empty),
                CfgWordV1::Int(on_truncated),
            ];
            assert(w@ =~= seq![
                CfgWordV1::Int(cfg.max_frame_bytes),
                CfgWordV1::Int(cfg.max_frames),
                CfgWordV1::Int(cfg.allow_empty),
                CfgWordV1::Int(on_truncated_code(cfg.on_truncated)),
            ]);
            builtin_plugin(
                registry,
                "xf.deframe_u32le_v1",
                world,
                ptr,
                PluginCfgV1::Words(w),
                PluginErrMapV1::DeframeU32LeV1,
            )
        },
        PipeXfV1::JsonCanonStreamV1 { cfg } => {
            let nr = no_registry_msg();
            let i = match lookup_stream_plugin_v1(registry, "xf.json_canon_stream_v1", world, ptr, nr.as_str()) {
                Err(e) => {
                    return Err(e);
                },
                Ok(i) => i,
            };
            let max_depth = or_default_exec(cfg.max_depth, 64);
            let total = or_default_exec(cfg.max_total_json_bytes, limits.max_in_bytes);
            let members = or_default_exec(cfg.max_object_members, 4096);
            let out_cap = if limits.max_out_bytes < 4194304 {
                limits.max_out_bytes
            } else {
                4194304
            };
            let obj_total = or_default_exec(cfg.max_object_total_bytes, out_cap);
            let emit = or_default_exec(cfg.emit_chunk_max_bytes, limits.chunk_max_bytes);
            if max_depth <= 0 || total <= 0 || members <= 0 || obj_total <= 0 || emit <= 0 {
                return Ok(None);
            }
            let w = vec![
                CfgWordV1::Int(max_depth),
                CfgWordV1::Int(total),
                CfgWordV1::Int(members),
                CfgWordV1::Int(obj_total),
                CfgWordV1::Int(emit),
            ];
            assert(w@ =~= json_canon_words(*cfg, *limits)->0);
            Ok(
                Some(
                    StagePlanV1::Plugin {
                        plugin_at: i,
                        cfg: PluginCfgV1::Words(w),
                        strict_cfg_canon: 0,
                        err_map: PluginErrMapV1::JsonCanonStreamV1,
                    },
                ),
            )
        },
        PipeXfV1::PluginV1 { plugin_id, cfg_param, strict_cfg_canon, .. } => {
            let at = match registry {
                Some(reg) => registry_index(reg, plugin_id.as_str()),
                None => None,
            };
            match at {
                Some(i) => Ok(
                    Some(
                        StagePlanV1::Plugin {
                            plugin_at: i,
                            cfg: PluginCfgV1::FromParam(*cfg_param),
                            strict_cfg_canon: *strict_cfg_canon,
                            err_map: PluginErrMapV1::Generic,
                        },
                    ),
                ),
                None => Err(
                    err(CompileErrorKind::Internal, "internal error: stream plugin stage not resolved".to_string()),
                ),
            }
        },
        PipeXfV1::ParMapStreamV1 { cfg } => {
            let cap = cfg.max_inflight.checked_mul(4);
            Ok(
                Some(
                    StagePlanV1::ParMap {
                        unordered: cfg.unordered,
                        result_bytes: cfg.result_bytes,
                        tracks_inflight_bytes: cfg.max_inflight_in_bytes > 0,
                        slots_cap_bytes: cap,
                    },
                ),
            )
        },
    }
}

/// The stage plans of a parsed pipe whose limits are `limits`, with the
/// registry (`None` without an architecture root) and world that plugins
/// are looked up in; see `stages_outcome`.
#[verifier::rlimit(40)]
pub fn plan_pipe_stages_v1(
    pipe: &PipeParsed,
    limits: &PipeLimitsV1,
    registry: Option<&StreamPluginRegistryV1>,
    world: &str,
) -> (r: Result<PipeStagesOutcomeV1, CompilerError>)
    requires
        reg_wf(registry),
    ensures
        match stages_outcome(pipe@, *limits, reg_entries(registry), world@) {
            Ok(o) => r matches Ok(x) && x@ == o,
            Err((k, m)) => r matches Err(e) && is_err(e, k, m),
        },
{
    let ghost cv = xf_descs_view(pipe.chain@);
    let ghost reg = reg_entries(registry);
    let mut plans: Vec<StagePlanV1> = Vec::new();
    let mut par_maps: usize = 0;
    let mut unordered = false;
    let mut overflow = false;
    let mut i: usize = 0;
    assert(plans_view(plans@) =~= Seq::<StagePlanV>::empty());
    while i < pipe.chain.len()
        invariant
            i <= pipe.chain@.len(),
            cv == xf_descs_view(pipe.chain@),
            reg == reg_entries(registry),
            reg_wf(registry),
            stages_upto(cv, i as int, *limits, reg, world@) == Ok::<
                Option<Seq<StagePlanV>>,
                (CompileErrorKind, Seq<char>),
            >(Some(plans_view(plans@))),
            par_maps == par_map_count(plans_view(plans@)),
            par_maps <= i,
            unordered == has_unordered_par_map(plans_view(plans@)),
            overflow == has_overflowing_par_map(plans_view(plans@)),
        decreases pipe.chain.len() - i,
    {
        let x = &pipe.chain[i];
        let step = plan_stage_v1(x, limits, registry, world);
        let ghost before = plans_view(plans@);
        match step {
            Err(e) => {
                proof {
                    lemma_stages_stop(cv, i as int + 1, cv.len() as int, *limits, reg, world@);
                }
                return Err(e);
            },
            Ok(None) => {
                proof {
                    lemma_stages_stop(cv, i as int + 1, cv.len() as int, *limits, reg, world@);
                }
                return Ok(PipeStagesOutcomeV1::CfgInvalid);
            },
            Ok(Some(p)) => {
                if let StagePlanV1::ParMap { unordered: u, slots_cap_bytes: c, .. } = &p {
                    par_maps = par_maps + 1;
                    if *u {
                        unordered = true;
                    }
                    if c.is_none() {
                        overflow = true;
                    }
                }
                plans.push(p);
                proof {
                    let after = plans_view(plans@);
                    assert(after =~= before.push(p@));
                    assert(after.drop_last() =~= before);
                    assert(has_unordered_par_map(after) == (has_unordered_par_map(before) || after.last() matches StagePlanV::ParMap { unordered: true, .. })) by {
                        if has_unordered_par_map(after) {
                            let k = choose|k: int| 0 <= k < after.len() && #[trigger] after[k] matches StagePlanV::ParMap { unordered: true, .. };
                            if k < before.len() {
                                assert(before[k] == after[k]);
                            }
                        }
                        if has_unordered_par_map(before) {
                            let k = choose|k: int| 0 <= k < before.len() && #[trigger] before[k] matches StagePlanV::ParMap { unordered: true, .. };
                            assert(before[k] == after[k]);
                        }
                    }
                    assert(has_overflowing_par_map(after) == (has_overflowing_par_map(before) || after.last() matches StagePlanV::ParMap { slots_cap_bytes: None, .. })) by {
                        if has_overflowing_par_map(after) {
                            let k = choose|k: int| 0 <= k < after.len() && #[trigger] after[k] matches StagePlanV::ParMap { slots_cap_bytes: None, .. };
                            if k < before.len() {
                                assert(before[k] == after[k]);
                            }
                        }
                        if has_overflowing_par_map(before) {
                            let k = choose|k: int| 0 <= k < before.len() && #[trigger] before[k] matches StagePlanV::ParMap { slots_cap_bytes: None, .. };
                            assert(before[k] == after[k]);
                        }
                    }
                }
            },
        }
        i = i + 1;
    }
    if par_maps > 1 {
        return Err(
            err(CompileErrorKind::Typing, "std.stream.pipe_v1 supports at most one par_map stream stage".to_string()),
        );
    }
    if pipe.cfg.allow_nondet_v1 == 0 && unordered {
        return Err(
            err(
                CompileErrorKind::Typing,
                "X07E_PIPE_NDET_NOT_ALLOWED: unordered par_map stages require allow_nondet_v1=1".to_string(),
            ),
        );
    }
    if overflow {
        return Err(err(CompileErrorKind::Typing, "par_map_stream cap overflow".to_string()));
    }
    Ok(PipeStagesOutcomeV1::Planned(plans))
}

proof fn lemma_stages_stop(
    chain: Seq<PipeXfDescV>,
    m: int,
    n: int,
    l: PipeLimitsV1,
    reg: Option<Seq<(String, StreamPluginResolvedV1)>>,
    world: Seq<char>,
)
    requires
        0 <= m <= n,
        !(stages_upto(chain, m, l, reg, world) matches Ok(Some(_))),
    ensures
        stages_upto(chain, n, l, reg, world) == stages_upto(chain, m, l, reg, world),
    decreases n - m,
{
    if n > m {
        lemma_stages_stop(chain, m, n - 1, l, reg, world);
    }
}

/// Whether stage `k` runs through a stream plugin, so that a registry must
/// be loaded for the pipe.
pub open spec fn xf_uses_plugin(k: PipeXfV) -> bool {
    ||| k is SplitLines
    ||| k is FrameU32Le
    ||| k is DeframeU32LeV1
    ||| k is JsonCanonStreamV1
    ||| k is PluginV1
}

/// Whether some stage of the pipe runs through a stream plugin.
pub fn pipe_uses_stream_plugins(pipe: &PipeParsed) -> (r: bool)
    ensures
        r == exists|i: int| 0 <= i < pipe.chain@.len() && xf_uses_plugin(#[trigger] pipe.chain@[i]@.kind),
{
    let mut i: usize = 0;
    while i < pipe.chain.len()
        invariant
            i <= pipe.chain@.len(),
            forall|k: int| 0 <= k < i ==> !xf_uses_plugin(#[trigger] pipe.chain@[k]@.kind),
        decreases pipe.chain.len() - i,
    {
        let uses = match &pipe.chain[i].kind {
            PipeXfV1::SplitLines { .. } | PipeXfV1::FrameU32Le | PipeXfV1::DeframeU32LeV1 { .. }
            | PipeXfV1::JsonCanonStreamV1 { .. } | PipeXfV1::PluginV1 { .. } => true,
            _ => false,
        };
        if uses {
            assert(xf_uses_plugin(pipe.chain@[i as int]@.kind));
            return true;
        }
        i = i + 1;
    }
    false
}


/// After resolution, the plan of a `plugin_v1` stage binds it to the very
/// plugin whose item brands the stage was given.
pub proof fn lemma_plan_binds_resolved_plugin(
    chain: Seq<PipeXfDescV>,
    reg: Seq<(String, StreamPluginResolvedV1)>,
    world: Seq<char>,
    l: PipeLimitsV1,
    i: int,
)
    requires
        0 <= i < chain.len(),
        chain[i].kind is PluginV1,
        resolve_error_upto(chain, chain.len() as int, Some(reg), world) is None,
    ensures
        ({
            let x = resolved_stage(chain[i], reg);
            stage_spec(x, l, Some(reg), world) matches Ok(Some(StagePlanV::Plugin { plugin_at: p, .. })) && 0 <= p
                < reg.len() && reg[p].0@ == chain[i].kind->PluginV1_plugin_id && x.in_item_brand == Some(
                reg[p].1@.in_item_brand,
            ) && x.out_item_brand == Some(reg[p].1@.out_item_brand)
        }),
{
    lemma_resolve_ok_at(chain, i, chain.len() as int, Some(reg), world);
    let id = chain[i].kind->PluginV1_plugin_id;
    let p = registry_ids(reg).index_of(id);
    assert(0 <= p < registry_ids(reg).len() && registry_ids(reg)[p] == id);
}

} // verus!

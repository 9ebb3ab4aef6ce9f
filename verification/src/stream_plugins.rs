//! The stream plugin registry: validation of the plugin index entries and of
//! each plugin's spec against its entry, and the table of resolved plugins.
//! Reading and decoding the JSON files is the host's part.

use vstd::prelude::*;
use crate::ast::{Expr, ExprV};
use crate::compile::{CompileErrorKind, CompilerError};
use crate::stream_pipe::{
    brand_in_spec, brand_out_spec, is_typing_err, parse_item_brand_in, parse_item_brand_out, BrandInV, BrandOutV,
    PipeItemBrandInV1, PipeItemBrandOutV1,
};
use crate::text::{concat_str, debug_str, spec_debug_str, str_eq};
use crate::validate::{local_name_error, module_id_error, validate_local_name, validate_symbol};

verus! {

/// Whether a plugin is deterministic or may only run in OS worlds.
#[derive(Debug, Clone, Copy, PartialEq, Eq, Structural)]
pub enum StreamPluginDeterminismV1 {
    DeterministicV1,
    NondetOsOnlyV1,
}

/// How a plugin's configuration bytes must be canonical.
#[derive(Debug, Clone, Copy, PartialEq, Eq, Structural)]
pub enum StreamPluginCfgCanonModeV1 {
    NoneV1,
    CanonJsonV1,
}

#[derive(Debug, Clone, Copy, PartialEq, Eq, Structural)]
pub struct StreamPluginCfgV1 {
    pub max_bytes: u32,
    pub canon_mode: StreamPluginCfgCanonModeV1,
}

#[derive(Debug, Clone, Copy, PartialEq, Eq, Structural)]
pub struct StreamPluginLimitsV1 {
    pub max_out_bytes_per_step: u32,
    pub max_out_items_per_step: u32,
    pub max_out_buf_bytes: u32,
}

#[derive(Debug, Clone, Copy, PartialEq, Eq, Structural)]
pub struct StreamPluginBudgetsV1 {
    pub state_bytes: u32,
    pub scratch_bytes: u32,
}

/// A plugin as the index lists it.
#[derive(Debug)]
pub struct StreamPluginsIndexEntryV1 {
    pub plugin_id: String,
    pub plugin_spec_path: String,
    pub budget_profile_id: String,
    pub native_backend_id: String,
    pub abi_major: u32,
    pub export_symbol: String,
    pub determinism: String,
    pub worlds_allowed: Vec<String>,
    pub in_item_brand: String,
    pub out_item_brand: String,
    pub state_bytes: u32,
    pub scratch_bytes: u32,
}

/// A plugin's own spec file (its `budgets.max_expand_ratio` is checked by
/// the host, which reads the file).
#[derive(Debug)]
pub struct StreamPluginSpecFileV1 {
    pub schema_version: String,
    pub plugin_id: String,
    pub v: u32,
    pub native_backend_id: String,
    pub abi_major: u32,
    pub export_symbol: String,
    pub determinism: String,
    pub worlds_allowed: Vec<String>,
    pub in_item_brand: String,
    pub out_item_brand: String,
    pub state_bytes: u32,
    pub scratch_bytes: u32,
    pub cfg_max_bytes: u32,
    pub cfg_canon_mode: String,
    pub limits: StreamPluginLimitsV1,
}

/// A plugin resolved from its index entry and spec.
#[derive(Debug)]
pub struct StreamPluginResolvedV1 {
    pub plugin_id: String,
    pub native_backend_id: String,
    pub abi_major: u32,
    pub export_symbol: String,
    pub budget_profile_id: String,
    pub determinism: StreamPluginDeterminismV1,
    pub worlds_allowed: Vec<String>,
    pub in_item_brand: PipeItemBrandInV1,
    pub out_item_brand: PipeItemBrandOutV1,
    pub budgets: StreamPluginBudgetsV1,
    pub cfg: StreamPluginCfgV1,
    pub limits: StreamPluginLimitsV1,
}

pub open spec fn strings_view(v: Seq<String>) -> Seq<Seq<char>> {
    Seq::new(v.len(), |i: int| v[i]@)
}

/// The first complaint about an index entry's identifiers.
pub open spec fn entry_error(e: StreamPluginsIndexEntryV1) -> Option<Seq<char>> {
    match module_id_error(e.plugin_id@) {
        Some(m) => Some(m),
        None => match module_id_error(e.native_backend_id@) {
            Some(m) => Some(m),
            None => match module_id_error(e.budget_profile_id@) {
                Some(m) => Some(m),
                None => local_name_error(e.export_symbol@),
            },
        },
    }
}

fn typing(m: String) -> (e: CompilerError)
    ensures
        is_typing_err(e, m@),
{
    CompilerError::new(CompileErrorKind::Typing, m)
}

/// Checks the identifiers of an index entry: plugin, backend and budget
/// profile ids are symbols, the export is a local name.
pub fn validate_plugin_index_entry_v1(entry: &StreamPluginsIndexEntryV1) -> (r: Result<(), CompilerError>)
    ensures
        match entry_error(*entry) {
            None => r is Ok,
            Some(m) => r matches Err(e) && is_typing_err(e, m),
        },
{
    if let Err(m) = validate_symbol(entry.plugin_id.as_str()) {
        return Err(typing(m));
    }
    if let Err(m) = validate_symbol(entry.native_backend_id.as_str()) {
        return Err(typing(m));
    }
    if let Err(m) = validate_symbol(entry.budget_profile_id.as_str()) {
        return Err(typing(m));
    }
    if let Err(m) = validate_local_name(entry.export_symbol.as_str()) {
        return Err(typing(m));
    }
    Ok(())
}

fn cat(a: String, b: &str) -> (r: String)
    ensures
        r@ == a@ + b@,
{
    concat_str(a.as_str(), b)
}

/// The error when a file's `schema_version` is not the expected one;
/// `prefix` names the file kind.
pub open spec fn schema_error(prefix: Seq<char>, expected: Seq<char>, got: Seq<char>, path: Seq<char>) -> Option<Seq<char>> {
    if got == expected {
        None
    } else {
        Some(
            prefix + ": expected schema_version "@ + spec_debug_str(expected) + " got "@ + spec_debug_str(got) + " in "@
                + path,
        )
    }
}

/// Checks a file's schema version (`E_PIPE_PLUGIN_INDEX_INVALID` for the
/// index, `E_PIPE_PLUGIN_SPEC_INVALID` for a spec).
pub fn check_schema_version_v1(prefix: &str, expected: &str, got: &str, path: &str) -> (r: Result<(), CompilerError>)
    ensures
        match schema_error(prefix@, expected@, got@, path@) {
            None => r is Ok,
            Some(m) => r matches Err(e) && is_typing_err(e, m),
        },
{
    if str_eq(got, expected) {
        return Ok(());
    }
    let m = cat(prefix.to_string(), ": expected schema_version ");
    let m = cat(m, debug_str(expected).as_str());
    let m = cat(m, " got ");
    let m = cat(m, debug_str(got).as_str());
    let m = cat(m, " in ");
    Err(typing(cat(m, path)))
}

/// `(plugin_id=<id:?> spec_path=<path>)`, the tail of spec errors.
pub open spec fn id_path(id: Seq<char>, path: Seq<char>) -> Seq<char> {
    " (plugin_id="@ + spec_debug_str(id) + " spec_path="@ + path + ")"@
}

pub open spec fn mismatch(what: Seq<char>, id: Seq<char>, path: Seq<char>) -> Seq<char> {
    "E_PIPE_PLUGIN_SPEC_MISMATCH: "@ + what + " mismatch between index and spec"@ + id_path(id, path)
}

pub open spec fn determinism_of(s: Seq<char>) -> Option<StreamPluginDeterminismV1> {
    if s == "deterministic_v1"@ {
        Some(StreamPluginDeterminismV1::DeterministicV1)
    } else if s == "nondet_os_only_v1"@ {
        Some(StreamPluginDeterminismV1::NondetOsOnlyV1)
    } else {
        None
    }
}

pub open spec fn canon_mode_of(s: Seq<char>) -> Option<StreamPluginCfgCanonModeV1> {
    if s == "none_v1"@ {
        Some(StreamPluginCfgCanonModeV1::NoneV1)
    } else if s == "canon_json_v1"@ {
        Some(StreamPluginCfgCanonModeV1::CanonJsonV1)
    } else {
        None
    }
}

/// A resolved plugin, as text.
pub struct StreamPluginResolvedV {
    pub plugin_id: Seq<char>,
    pub native_backend_id: Seq<char>,
    pub abi_major: u32,
    pub export_symbol: Seq<char>,
    pub budget_profile_id: Seq<char>,
    pub determinism: StreamPluginDeterminismV1,
    pub worlds_allowed: Seq<Seq<char>>,
    pub in_item_brand: BrandInV,
    pub out_item_brand: BrandOutV,
    pub budgets: StreamPluginBudgetsV1,
    pub cfg: StreamPluginCfgV1,
    pub limits: StreamPluginLimitsV1,
}

impl View for StreamPluginResolvedV1 {
    type V = StreamPluginResolvedV;

    open spec fn view(&self) -> StreamPluginResolvedV {
        StreamPluginResolvedV {
            plugin_id: self.plugin_id@,
            native_backend_id: self.native_backend_id@,
            abi_major: self.abi_major,
            export_symbol: self.export_symbol@,
            budget_profile_id: self.budget_profile_id@,
            determinism: self.determinism,
            worlds_allowed: strings_view(self.worlds_allowed@),
            in_item_brand: self.in_item_brand@,
            out_item_brand: self.out_item_brand@,
            budgets: self.budgets,
            cfg: self.cfg,
            limits: self.limits,
        }
    }
}

/// A plugin from its index entry and spec, or the first disagreement or
/// invalid value: id, ABI, worlds, determinism, brands and budgets must
/// agree, the determinism and canonical mode must be known, the brands must
/// parse, and the spec version must be at least 1.
pub open spec fn plugin_spec_outcome(e: StreamPluginsIndexEntryV1, s: StreamPluginSpecFileV1, path: Seq<char>) -> Result<
    StreamPluginResolvedV,
    Seq<char>,
> {
    let id = e.plugin_id@;
    if s.plugin_id@ != id {
        Err(
            "E_PIPE_PLUGIN_SPEC_MISMATCH: plugin_id mismatch: index has "@ + spec_debug_str(id) + " spec has "@
                + spec_debug_str(s.plugin_id@) + " (spec_path="@ + path + ")"@,
        )
    } else if s.native_backend_id@ != e.native_backend_id@ || s.abi_major != e.abi_major || s.export_symbol@
        != e.export_symbol@ {
        Err(mismatch("abi"@, id, path))
    } else if strings_view(s.worlds_allowed@) != strings_view(e.worlds_allowed@) {
        Err(mismatch("worlds_allowed"@, id, path))
    } else if s.determinism@ != e.determinism@ {
        Err(mismatch("determinism"@, id, path))
    } else if s.in_item_brand@ != e.in_item_brand@ || s.out_item_brand@ != e.out_item_brand@ {
        Err(mismatch("brands"@, id, path))
    } else if s.state_bytes != e.state_bytes || s.scratch_bytes != e.scratch_bytes {
        Err(mismatch("budgets"@, id, path))
    } else {
        match (determinism_of(s.determinism@), canon_mode_of(s.cfg_canon_mode@)) {
            (None, _) => Err(
                "E_PIPE_PLUGIN_SPEC_INVALID: unknown determinism "@ + spec_debug_str(s.determinism@) + id_path(id, path),
            ),
            (Some(_), None) => Err(
                "E_PIPE_PLUGIN_SPEC_INVALID: unknown cfg.canon_mode "@ + spec_debug_str(s.cfg_canon_mode@) + id_path(
                    id,
                    path,
                ),
            ),
            (Some(d), Some(cm)) => match (
                brand_in_spec(ExprV::Ident(s.in_item_brand@, Seq::empty()), "in_item_brand"@),
                brand_out_spec(ExprV::Ident(s.out_item_brand@, Seq::empty()), "out_item_brand"@),
            ) {
                (Err(m), _) => Err(m),
                (Ok(_), Err(m)) => Err(m),
                (Ok(bi), Ok(bo)) => if s.v == 0 {
                    Err("E_PIPE_PLUGIN_SPEC_INVALID: v must be >= 1"@ + id_path(id, path))
                } else {
                    Ok(
                        StreamPluginResolvedV {
                            plugin_id: id,
                            native_backend_id: s.native_backend_id@,
                            abi_major: s.abi_major,
                            export_symbol: s.export_symbol@,
                            budget_profile_id: e.budget_profile_id@,
                            determinism: d,
                            worlds_allowed: strings_view(s.worlds_allowed@),
                            in_item_brand: bi,
                            out_item_brand: bo,
                            budgets: StreamPluginBudgetsV1 { state_bytes: s.state_bytes, scratch_bytes: s.scratch_bytes },
                            cfg: StreamPluginCfgV1 { max_bytes: s.cfg_max_bytes, canon_mode: cm },
                            limits: s.limits,
                        },
                    )
                },
            },
        }
    }
}

fn strings_eq(a: &Vec<String>, b: &Vec<String>) -> (r: bool)
    ensures
        r == (strings_view(a@) == strings_view(b@)),
{
    if a.len() != b.len() {
        proof {
            assert(strings_view(a@).len() != strings_view(b@).len());
        }
        return false;
    }
    let mut i: usize = 0;
    while i < a.len()
        invariant
            i <= a@.len(),
            a@.len() == b@.len(),
            forall|k: int| 0 <= k < i ==> a@[k]@ == b@[k]@,
        decreases a.len() - i,
    {
        if !str_eq(a[i].as_str(), b[i].as_str()) {
            proof {
                assert(strings_view(a@)[i as int] != strings_view(b@)[i as int]);
            }
            return false;
        }
        i = i + 1;
    }
    assert(strings_view(a@) =~= strings_view(b@));
    true
}

fn copy_strings(v: &Vec<String>) -> (r: Vec<String>)
    ensures
        strings_view(r@) == strings_view(v@),
{
    let mut out: Vec<String> = Vec::new();
    let mut i: usize = 0;
    while i < v.len()
        invariant
            i <= v@.len(),
            strings_view(out@) == strings_view(v@).take(i as int),
        decreases v.len() - i,
    {
        let ghost before = out@;
        let s = v[i].as_str().to_string();
        out.push(s);
        assert(strings_view(out@) =~= strings_view(before).push(v@[i as int]@));
        i = i + 1;
        assert(strings_view(out@) =~= strings_view(v@).take(i as int));
    }
    assert(strings_view(v@).take(i as int) =~= strings_view(v@));
    out
}

fn id_path_exec(id: &str, path: &str) -> (r: String)
    ensures
        r@ == id_path(id@, path@),
{
    let m = cat(" (plugin_id=".to_string(), debug_str(id).as_str());
    let m = cat(m, " spec_path=");
    let m = cat(m, path);
    let m2 = cat(m, ")");
    proof {
        assert(m2@ =~= id_path(id@, path@));
    }
    m2
}

fn mismatch_exec(what: &str, id: &str, path: &str) -> (e: CompilerError)
    ensures
        is_typing_err(e, mismatch(what@, id@, path@)),
{
    let m = cat("E_PIPE_PLUGIN_SPEC_MISMATCH: ".to_string(), what);
    let m = cat(m, " mismatch between index and spec");
    let t = id_path_exec(id, path);
    let m2 = cat(m, t.as_str());
    typing(m2)
}

/// Resolves a plugin from its index entry and its spec, read from `path`.
#[verifier::rlimit(40)]
pub fn resolve_plugin_spec_v1(
    entry: &StreamPluginsIndexEntryV1,
    spec: &StreamPluginSpecFileV1,
    path: &str,
) -> (r: Result<StreamPluginResolvedV1, CompilerError>)
    ensures
        match plugin_spec_outcome(*entry, *spec, path@) {
            Ok(p) => r matches Ok(x) && x@ == p,
            Err(m) => r matches Err(e) && is_typing_err(e, m),
        },
{
    let id = entry.plugin_id.as_str();
    if !str_eq(spec.plugin_id.as_str(), id) {
        let m = cat("E_PIPE_PLUGIN_SPEC_MISMATCH: plugin_id mismatch: index has ".to_string(), debug_str(id).as_str());
        let m = cat(m, " spec has ");
        let m = cat(m, debug_str(spec.plugin_id.as_str()).as_str());
        let m = cat(m, " (spec_path=");
        let m = cat(m, path);
        return Err(typing(cat(m, ")")));
    }
    if !str_eq(spec.native_backend_id.as_str(), entry.native_backend_id.as_str()) || spec.abi_major != entry.abi_major
        || !str_eq(spec.export_symbol.as_str(), entry.export_symbol.as_str()) {
        return Err(mismatch_exec("abi", id, path));
    }
    if !strings_eq(&spec.worlds_allowed, &entry.worlds_allowed) {
        return Err(mismatch_exec("worlds_allowed", id, path));
    }
    if !str_eq(spec.determinism.as_str(), entry.determinism.as_str()) {
        return Err(mismatch_exec("determinism", id, path));
    }
    if !str_eq(spec.in_item_brand.as_str(), entry.in_item_brand.as_str()) || !str_eq(
        spec.out_item_brand.as_str(),
        entry.out_item_brand.as_str(),
    ) {
        return Err(mismatch_exec("brands", id, path));
    }
    if spec.state_bytes != entry.state_bytes || spec.scratch_bytes != entry.scratch_bytes {
        return Err(mismatch_exec("budgets", id, path));
    }
    let determinism = if str_eq(spec.determinism.as_str(), "deterministic_v1") {
        StreamPluginDeterminismV1::DeterministicV1
    } else if str_eq(spec.determinism.as_str(), "nondet_os_only_v1") {
        StreamPluginDeterminismV1::NondetOsOnlyV1
    } else {
        let m = cat("E_PIPE_PLUGIN_SPEC_INVALID: unknown determinism ".to_string(), debug_str(spec.determinism.as_str()).as_str());
        return Err(typing(cat(m, id_path_exec(id, path).as_str())));
    };
    let canon_mode = if str_eq(spec.cfg_canon_mode.as_str(), "none_v1") {
        StreamPluginCfgCanonModeV1::NoneV1
    } else if str_eq(spec.cfg_canon_mode.as_str(), "canon_json_v1") {
        StreamPluginCfgCanonModeV1::CanonJsonV1
    } else {
        let m = cat(
            "E_PIPE_PLUGIN_SPEC_INVALID: unknown cfg.canon_mode ".to_string(),
            debug_str(spec.cfg_canon_mode.as_str()).as_str(),
        );
        return Err(typing(cat(m, id_path_exec(id, path).as_str())));
    };
    let in_expr = Expr::Ident { name: spec.in_item_brand.as_str().to_string(), ptr: String::new() };
    let in_item_brand = parse_item_brand_in(&in_expr, "in_item_brand")?;
    let out_expr = Expr::Ident { name: spec.out_item_brand.as_str().to_string(), ptr: String::new() };
    let out_item_brand = parse_item_brand_out(&out_expr, "out_item_brand")?;
    if spec.v == 0 {
        let m = cat("E_PIPE_PLUGIN_SPEC_INVALID: v must be >= 1".to_string(), id_path_exec(id, path).as_str());
        return Err(typing(m));
    }
    Ok(
        StreamPluginResolvedV1 {
            plugin_id: id.to_string(),
            native_backend_id: spec.native_backend_id.as_str().to_string(),
            abi_major: spec.abi_major,
            export_symbol: spec.export_symbol.as_str().to_string(),
            budget_profile_id: entry.budget_profile_id.as_str().to_string(),
            determinism,
            worlds_allowed: copy_strings(&spec.worlds_allowed),
            in_item_brand,
            out_item_brand,
            budgets: StreamPluginBudgetsV1 { state_bytes: spec.state_bytes, scratch_bytes: spec.scratch_bytes },
            cfg: StreamPluginCfgV1 { max_bytes: spec.cfg_max_bytes, canon_mode },
            limits: spec.limits,
        },
    )
}

/// The resolved plugins by id; an id is registered once.
#[derive(Debug)]
pub struct StreamPluginRegistryV1 {
    pub by_id: Vec<(String, StreamPluginResolvedV1)>,
}

pub open spec fn registry_ids(v: Seq<(String, StreamPluginResolvedV1)>) -> Seq<Seq<char>> {
    Seq::new(v.len(), |i: int| v[i].0@)
}

impl StreamPluginRegistryV1 {
    /// No id twice.
    pub open spec fn wf(&self) -> bool {
        registry_ids(self.by_id@).no_duplicates()
    }

    pub fn new() -> (r: Self)
        ensures
            r.wf(),
            r.by_id@.len() == 0,
    {
        let r = StreamPluginRegistryV1 { by_id: Vec::new() };
        assert(registry_ids(r.by_id@) =~= Seq::<Seq<char>>::empty());
        r
    }

    /// The plugin registered as `plugin_id`.
    pub fn get(&self, plugin_id: &str) -> (r: Option<&StreamPluginResolvedV1>)
        ensures
            match r {
                Some(p) => exists|i: int| 0 <= i < self.by_id@.len() && self.by_id@[i].0@ == plugin_id@ && self.by_id@[i].1
                    == *p,
                None => !registry_ids(self.by_id@).contains(plugin_id@),
            },
    {
        let mut i: usize = 0;
        while i < self.by_id.len()
            invariant
                i <= self.by_id@.len(),
                forall|k: int| 0 <= k < i ==> self.by_id@[k].0@ != plugin_id@,
            decreases self.by_id.len() - i,
        {
            if str_eq(self.by_id[i].0.as_str(), plugin_id) {
                return Some(&self.by_id[i].1);
            }
            i = i + 1;
        }
        proof {
            if registry_ids(self.by_id@).contains(plugin_id@) {
                let k = choose|k: int| 0 <= k < registry_ids(self.by_id@).len() && registry_ids(self.by_id@)[k] == plugin_id@;
                assert(self.by_id@[k].0@ == plugin_id@);
            }
        }
        None
    }

    /// Registers a resolved plugin; an id already registered is refused
    /// (`index_path` names the index in the message).
    pub fn insert_v1(&mut self, resolved: StreamPluginResolvedV1, index_path: &str) -> (r: Result<(), CompilerError>)
        requires
            old(self).wf(),
        ensures
            final(self).wf(),
            registry_ids(old(self).by_id@).contains(resolved.plugin_id@) ==> (r matches Err(e) && is_typing_err(
                e,
                "E_PIPE_PLUGIN_DUPLICATE_ID: duplicate plugin_id "@ + spec_debug_str(resolved.plugin_id@) + " in "@
                    + index_path@,
            ) && final(self).by_id@ == old(self).by_id@),
            !registry_ids(old(self).by_id@).contains(resolved.plugin_id@) ==> (r is Ok && registry_ids(final(self).by_id@)
                == registry_ids(old(self).by_id@).push(resolved.plugin_id@) && final(self).by_id@.len()
                == old(self).by_id@.len() + 1 && final(self).by_id@.last().1 == resolved && final(self).by_id@.take(
                old(self).by_id@.len() as int,
            ) == old(self).by_id@),
    {
        let id = resolved.plugin_id.as_str().to_string();
        if self.get(id.as_str()).is_some() {
            proof {
                let k = choose|k: int| 0 <= k < self.by_id@.len() && self.by_id@[k].0@ == id@;
                assert(registry_ids(self.by_id@)[k] == resolved.plugin_id@);
            }
            let m = cat("E_PIPE_PLUGIN_DUPLICATE_ID: duplicate plugin_id ".to_string(), debug_str(id.as_str()).as_str());
            let m = cat(m, " in ");
            return Err(typing(cat(m, index_path)));
        }
        let ghost before = self.by_id@;
        self.by_id.push((id, resolved));
        proof {
            assert(registry_ids(self.by_id@) =~= registry_ids(before).push(resolved.plugin_id@));
            assert(self.by_id@.take(before.len() as int) =~= before);
            assert(!registry_ids(before).contains(resolved.plugin_id@));
        }
        Ok(())
    }
}

} // verus!

//! Pure-solve WASM backend: feature set, memory layout, memory limits and
//! the lowering of programs to module plans.

pub mod features;
pub mod layout;
pub mod emit_module;
pub mod module_desc;

use vstd::prelude::*;
use crate::compile::{CompileOptions, CompilerError};
use crate::program::Program;

verus! {

/// Linear-memory limits in bytes (page multiples).
#[derive(Debug, Clone, Copy, PartialEq, Eq, Structural)]
pub struct WasmMemLimits {
    pub initial_memory_bytes: u64,
    pub max_memory_bytes: u64,
    pub no_growable_memory: bool,
}

/// Options of the WASM backend.
#[derive(Debug)]
pub struct WasmEmitOptions {
    pub mem: WasmMemLimits,
    pub features: features::WasmFeatureSetV1,
}

/// Lowers a pure-solve program to a WASM module plan. The memory limits are
/// checked first, then that the build is freestanding, targets the
/// `solve-pure` world and has no async or extern functions; each refusal
/// has its own error. A plan that comes out has the allocator, the
/// definitions in order, the solve function and the exported entry. A
/// program whose definitions are all lowerable, with distinct names, and
/// whose solve expression is a `bytes.lit` form lowers whenever the checks
/// pass and literals are enabled; a definition returning an integer literal
/// as `i32` then lowers to exactly that constant, and one returning a
/// parameter to exactly the reads of that parameter's locals.
pub fn emit_solve_pure_wasm_v1(
    program: &Program,
    options: &CompileOptions,
    wasm_opts: &WasmEmitOptions,
) -> (r: Result<emit_module::WasmModulePlan, CompilerError>)
    requires
        program.functions@.len() + 3 <= u32::MAX,
    ensures
        emit_module::emit_outcome(*program, *options, wasm_opts.mem, r),
        emit_module::lowering_owed(*program, *options, *wasm_opts, r),
{
    emit_module::emit_solve_pure_wasm_v1(program, options, wasm_opts)
}

} // verus!

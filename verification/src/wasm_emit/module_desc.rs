//! The module-level layout around a lowered plan: the five `i32` globals,
//! the exports and where the data segment goes.

use vstd::prelude::*;
use crate::wasm_emit::emit_module::WasmModulePlan;

verus! {

/// What an export names.
#[derive(Debug, Clone, Copy, PartialEq, Eq, Structural)]
pub enum ExportKindV1 {
    Memory,
    Func,
    Global,
}

/// One export: its name, what it names and that item's index.
#[derive(Debug)]
pub struct WasmExportV1 {
    pub name: String,
    pub kind: ExportKindV1,
    pub index: u32,
}

/// One `i32` global with its initial value.
#[derive(Debug, Clone, Copy, PartialEq, Eq, Structural)]
pub struct WasmGlobalV1 {
    pub mutable: bool,
    pub init: i32,
}

/// The module around the plan's functions and memory.
#[derive(Debug)]
pub struct WasmModuleDescV1 {
    pub globals: Vec<WasmGlobalV1>,
    pub exports: Vec<WasmExportV1>,
    /// One active data segment at address 0 holds the plan's data, when there is any.
    pub data_segment: bool,
}

/// The exports, as (name, kind, index).
pub open spec fn exports_view(v: Seq<WasmExportV1>) -> Seq<(Seq<char>, ExportKindV1, u32)> {
    v.map_values(|e: WasmExportV1| (e.name@, e.kind, e.index))
}

/// The globals every module has: `__data_end` and `__heap_base` (read-only),
/// then the heap base, heap pointer and heap end the runtime updates, all
/// starting at the end of the data.
pub open spec fn expected_globals(data_end: u32) -> Seq<WasmGlobalV1> {
    let init = data_end as i32;
    seq![
        WasmGlobalV1 { mutable: false, init },
        WasmGlobalV1 { mutable: false, init },
        WasmGlobalV1 { mutable: true, init },
        WasmGlobalV1 { mutable: true, init },
        WasmGlobalV1 { mutable: true, init },
    ]
}

/// The exports every module has: its memory, the entry function and the two
/// read-only globals.
pub open spec fn expected_exports(entry_fn: u32) -> Seq<(Seq<char>, ExportKindV1, u32)> {
    seq![
        ("memory"@, ExportKindV1::Memory, 0u32),
        ("x07_solve_v2"@, ExportKindV1::Func, entry_fn),
        ("__data_end"@, ExportKindV1::Global, 0u32),
        ("__heap_base"@, ExportKindV1::Global, 1u32),
    ]
}

fn global_v1(mutable: bool, init: i32) -> (g: WasmGlobalV1)
    ensures
        g == (WasmGlobalV1 { mutable, init }),
{
    WasmGlobalV1 { mutable, init }
}

/// The module layout of `plan`.
pub fn module_desc(plan: &WasmModulePlan) -> (d: WasmModuleDescV1)
    ensures
        d.globals@ == expected_globals(plan.data_end),
        exports_view(d.exports@) == expected_exports(plan.entry_fn),
        d.data_segment == (plan.data@.len() > 0),
{
    #[verifier::truncate]
    let init = plan.data_end as i32;
    let mut globals: Vec<WasmGlobalV1> = Vec::new();
    globals.push(global_v1(false, init));
    globals.push(global_v1(false, init));
    globals.push(global_v1(true, init));
    globals.push(global_v1(true, init));
    globals.push(global_v1(true, init));
    let mut exports: Vec<WasmExportV1> = Vec::new();
    exports.push(WasmExportV1 { name: "memory".to_string(), kind: ExportKindV1::Memory, index: 0 });
    exports.push(WasmExportV1 { name: "x07_solve_v2".to_string(), kind: ExportKindV1::Func, index: plan.entry_fn });
    exports.push(WasmExportV1 { name: "__data_end".to_string(), kind: ExportKindV1::Global, index: 0 });
    exports.push(WasmExportV1 { name: "__heap_base".to_string(), kind: ExportKindV1::Global, index: 1 });
    proof {
        assert(globals@ =~= expected_globals(plan.data_end));
        assert(exports_view(exports@) =~= expected_exports(plan.entry_fn));
    }
    WasmModuleDescV1 { globals, exports, data_segment: plan.data.len() > 0 }
}

} // verus!

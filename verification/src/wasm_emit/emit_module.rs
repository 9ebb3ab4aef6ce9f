//! Lowering of a pure-solve program to a WASM module plan: the function
//! bodies as instruction lists, their locals, the data segment and the
//! memory limits.

use vstd::prelude::*;
use vstd::arithmetic::power2::pow2;
use crate::compile::{CompileErrorKind, CompileOptions, CompilerError};
use crate::program::{FunctionDef, FunctionParam, Program};
use crate::diagnostics::{
    DiagV, DiagValue, Diagnostic, DV, LocV, Location, Severity, Stage,
};
use crate::ast::{expr_ident, view_exprs, Expr, ExprV};
use crate::infer::lemma_child;
use crate::text::{
    concat_str, debug_str, dec, seq_starts_with, spec_debug_str, str_eq, str_starts_with, trim_seq,
    trim_str, u64_to_dec,
};
use crate::types::Ty;
use crate::wasm_emit::features::{feature_name, WasmFeatureV1};
use crate::wasm_emit::layout::{bytes_to_pages_exact, spec_bytes_to_pages_exact};
use crate::wasm_emit::{WasmEmitOptions, WasmMemLimits};

verus! {

/// The memory operand of a load or store (memory 0).
#[derive(Debug, Clone, Copy, PartialEq, Eq, Structural)]
pub struct MemArgV {
    pub offset: u64,
    pub align: u32,
}

/// The WASM instructions the backend emits (blocks have no result type).
#[derive(Debug, Clone, Copy, PartialEq, Eq, Structural)]
pub enum Instr {
    I32Const(i32),
    LocalGet(u32),
    LocalSet(u32),
    GlobalGet(u32),
    GlobalSet(u32),
    I32Add,
    I32Sub,
    I32Mul,
    I32DivS,
    I32RemS,
    I32And,
    I32Or,
    I32Xor,
    I32Shl,
    I32ShrU,
    I32Eq,
    I32Ne,
    I32Eqz,
    I32LtS,
    I32LtU,
    I32LeS,
    I32LeU,
    I32GtS,
    I32GtU,
    I32GeS,
    I32GeU,
    If,
    Else,
    End,
    Block,
    Loop,
    Br(u32),
    BrIf(u32),
    Call(u32),
    Drop,
    Unreachable,
    Return,
    I32Load8U(MemArgV),
    I32Store8(MemArgV),
    I32Load(MemArgV),
    I32Store(MemArgV),
    MemoryCopy,
    MemoryFill,
}

/// A value type of the WASM backend (every value is an `i32`).
#[derive(Debug, Clone, Copy, PartialEq, Eq, Structural)]
pub enum ValKind {
    I32,
}

/// The `{:?}` rendering of a type: its variant name.
pub open spec fn ty_name(t: Ty) -> Seq<char> {
    match t {
        Ty::I32 => "I32"@,
        Ty::Bytes => "Bytes"@,
        Ty::BytesView => "BytesView"@,
        Ty::VecU8 => "VecU8"@,
        Ty::OptionI32 => "OptionI32"@,
        Ty::OptionBytes => "OptionBytes"@,
        Ty::OptionBytesView => "OptionBytesView"@,
        Ty::ResultI32 => "ResultI32"@,
        Ty::ResultBytes => "ResultBytes"@,
        Ty::ResultBytesView => "ResultBytesView"@,
        Ty::ResultResultBytes => "ResultResultBytes"@,
        Ty::Iface => "Iface"@,
        Ty::PtrConstU8 => "PtrConstU8"@,
        Ty::PtrMutU8 => "PtrMutU8"@,
        Ty::PtrConstVoid => "PtrConstVoid"@,
        Ty::PtrMutVoid => "PtrMutVoid"@,
        Ty::PtrConstI32 => "PtrConstI32"@,
        Ty::PtrMutI32 => "PtrMutI32"@,
        Ty::TaskScopeV1 => "TaskScopeV1"@,
        Ty::BudgetScopeV1 => "BudgetScopeV1"@,
        Ty::TaskHandleBytesV1 => "TaskHandleBytesV1"@,
        Ty::TaskHandleResultBytesV1 => "TaskHandleResultBytesV1"@,
        Ty::TaskSlotV1 => "TaskSlotV1"@,
        Ty::TaskSelectEvtV1 => "TaskSelectEvtV1"@,
        Ty::OptionTaskSelectEvtV1 => "OptionTaskSelectEvtV1"@,
        Ty::Never => "Never"@,
    }
}

/// Distinct types have distinct names.
pub proof fn lemma_ty_name_injective(a: Ty, b: Ty)
    ensures
        ty_name(a) == ty_name(b) ==> a == b,
{
    reveal_strlit("I32");
    reveal_strlit("Bytes");
    reveal_strlit("BytesView");
    reveal_strlit("VecU8");
    reveal_strlit("OptionI32");
    reveal_strlit("OptionBytes");
    reveal_strlit("OptionBytesView");
    reveal_strlit("ResultI32");
    reveal_strlit("ResultBytes");
    reveal_strlit("ResultBytesView");
    reveal_strlit("ResultResultBytes");
    reveal_strlit("Iface");
    reveal_strlit("PtrConstU8");
    reveal_strlit("PtrMutU8");
    reveal_strlit("PtrConstVoid");
    reveal_strlit("PtrMutVoid");
    reveal_strlit("PtrConstI32");
    reveal_strlit("PtrMutI32");
    reveal_strlit("TaskScopeV1");
    reveal_strlit("BudgetScopeV1");
    reveal_strlit("TaskHandleBytesV1");
    reveal_strlit("TaskHandleResultBytesV1");
    reveal_strlit("TaskSlotV1");
    reveal_strlit("TaskSelectEvtV1");
    reveal_strlit("OptionTaskSelectEvtV1");
    reveal_strlit("Never");
    assert("I32"@.len() == 3);
    assert("Bytes"@.len() == 5);
    assert("BytesView"@.len() == 9);
    assert("VecU8"@.len() == 5);
    assert("OptionI32"@.len() == 9);
    assert("OptionBytes"@.len() == 11);
    assert("OptionBytesView"@.len() == 15);
    assert("ResultI32"@.len() == 9);
    assert("ResultBytes"@.len() == 11);
    assert("ResultBytesView"@.len() == 15);
    assert("ResultResultBytes"@.len() == 17);
    assert("Iface"@.len() == 5);
    assert("PtrConstU8"@.len() == 10);
    assert("PtrMutU8"@.len() == 8);
    assert("PtrConstVoid"@.len() == 12);
    assert("PtrMutVoid"@.len() == 10);
    assert("PtrConstI32"@.len() == 11);
    assert("PtrMutI32"@.len() == 9);
    assert("TaskScopeV1"@.len() == 11);
    assert("BudgetScopeV1"@.len() == 13);
    assert("TaskHandleBytesV1"@.len() == 17);
    assert("TaskHandleResultBytesV1"@.len() == 23);
    assert("TaskSlotV1"@.len() == 10);
    assert("TaskSelectEvtV1"@.len() == 15);
    assert("OptionTaskSelectEvtV1"@.len() == 21);
    assert("Never"@.len() == 5);
    assert("Bytes"@[0] == 'B' && "VecU8"@[0] == 'V');
    assert("Bytes"@[0] == 'B' && "Iface"@[0] == 'I');
    assert("Bytes"@[0] == 'B' && "Never"@[0] == 'N');
    assert("BytesView"@[0] == 'B' && "OptionI32"@[0] == 'O');
    assert("BytesView"@[0] == 'B' && "ResultI32"@[0] == 'R');
    assert("BytesView"@[0] == 'B' && "PtrMutI32"@[0] == 'P');
    assert("OptionI32"@[0] == 'O' && "ResultI32"@[0] == 'R');
    assert("OptionI32"@[0] == 'O' && "PtrMutI32"@[0] == 'P');
    assert("OptionBytes"@[0] == 'O' && "ResultBytes"@[0] == 'R');
    assert("OptionBytes"@[0] == 'O' && "PtrConstI32"@[0] == 'P');
    assert("OptionBytes"@[0] == 'O' && "TaskScopeV1"@[0] == 'T');
    assert("OptionBytesView"@[0] == 'O' && "ResultBytesView"@[0] == 'R');
    assert("OptionBytesView"@[0] == 'O' && "TaskSelectEvtV1"@[0] == 'T');
    assert("ResultBytes"@[0] == 'R' && "TaskScopeV1"@[0] == 'T');
    assert("ResultBytesView"@[0] == 'R' && "TaskSelectEvtV1"@[0] == 'T');
    assert("ResultResultBytes"@[0] == 'R' && "TaskHandleBytesV1"@[0] == 'T');
    assert("Iface"@[0] == 'I' && "VecU8"@[0] == 'V');
    assert("Iface"@[0] == 'I' && "Never"@[0] == 'N');
    assert("PtrConstU8"@[3] == 'C' && "PtrMutVoid"@[3] == 'M');
    assert("PtrConstU8"@[0] == 'P' && "TaskSlotV1"@[0] == 'T');
    assert("PtrMutVoid"@[0] == 'P' && "TaskSlotV1"@[0] == 'T');
    assert("PtrConstI32"@[0] == 'P' && "ResultBytes"@[0] == 'R');
    assert("PtrConstI32"@[0] == 'P' && "TaskScopeV1"@[0] == 'T');
    assert("PtrMutI32"@[0] == 'P' && "ResultI32"@[0] == 'R');
    assert("Never"@[0] == 'N' && "VecU8"@[0] == 'V');
}

pub fn ty_debug(t: Ty) -> (r: &'static str)
    ensures
        r@ == ty_name(t),
{
    match t {
        Ty::I32 => "I32",
        Ty::Bytes => "Bytes",
        Ty::BytesView => "BytesView",
        Ty::VecU8 => "VecU8",
        Ty::OptionI32 => "OptionI32",
        Ty::OptionBytes => "OptionBytes",
        Ty::OptionBytesView => "OptionBytesView",
        Ty::ResultI32 => "ResultI32",
        Ty::ResultBytes => "ResultBytes",
        Ty::ResultBytesView => "ResultBytesView",
        Ty::ResultResultBytes => "ResultResultBytes",
        Ty::Iface => "Iface",
        Ty::PtrConstU8 => "PtrConstU8",
        Ty::PtrMutU8 => "PtrMutU8",
        Ty::PtrConstVoid => "PtrConstVoid",
        Ty::PtrMutVoid => "PtrMutVoid",
        Ty::PtrConstI32 => "PtrConstI32",
        Ty::PtrMutI32 => "PtrMutI32",
        Ty::TaskScopeV1 => "TaskScopeV1",
        Ty::BudgetScopeV1 => "BudgetScopeV1",
        Ty::TaskHandleBytesV1 => "TaskHandleBytesV1",
        Ty::TaskHandleResultBytesV1 => "TaskHandleResultBytesV1",
        Ty::TaskSlotV1 => "TaskSlotV1",
        Ty::TaskSelectEvtV1 => "TaskSelectEvtV1",
        Ty::OptionTaskSelectEvtV1 => "OptionTaskSelectEvtV1",
        Ty::Never => "Never",
    }
}

/// The diagnostic code for an unsupported construct of kind `kind`.
pub open spec fn unsupported_code(kind: Seq<char>) -> Seq<char> {
    if kind == "form"@ {
        "X07C_WASM_BACKEND_UNSUPPORTED_FORM"@
    } else if kind == "builtin"@ {
        "X07C_WASM_BACKEND_UNSUPPORTED_BUILTIN"@
    } else if kind == "op"@ {
        "X07C_WASM_BACKEND_UNSUPPORTED_OP"@
    } else if kind == "type"@ {
        "X07C_WASM_BACKEND_UNSUPPORTED_TYPE"@
    } else {
        "X07C_WASM_BACKEND_FEATURE_REQUIRED"@
    }
}

pub open spec fn unsupported_message(kind: Seq<char>, name: Seq<char>, f: WasmFeatureV1) -> Seq<char> {
    "wasm backend unsupported "@ + kind + ": "@ + name + " (requires feature "@ + feature_name(f)
        + ")"@
}

/// The codegen diagnostic for an unsupported construct; it points at `ptr`
/// unless `ptr` is blank.
pub open spec fn unsupported_diag_v(kind: Seq<char>, name: Seq<char>, f: WasmFeatureV1, ptr: Seq<char>) -> DiagV {
    DiagV {
        code: unsupported_code(kind),
        severity: Severity::Error,
        stage: Stage::Codegen,
        message: unsupported_message(kind, name, f),
        loc: if trim_seq(ptr).len() == 0 {
            None
        } else {
            Some(LocV::X07Ast(ptr))
        },
        notes: Seq::empty(),
        related: Seq::empty(),
        data: seq![
            ("kind"@, DV::Str(kind)),
            ("name"@, DV::Str(name)),
            ("requires_feature"@, DV::Str(feature_name(f))),
        ],
        quickfix: None,
    }
}

/// The error for a construct the enabled features do not cover.
pub fn wasm_unsupported(kind: &str, name: &str, needed: WasmFeatureV1, ptr: &str) -> (r: CompilerError)
    ensures
        r.kind == CompileErrorKind::Unsupported,
        r.message@ == unsupported_message(kind@, name@, needed),
        r.diagnostic matches Some(d) && d@ == unsupported_diag_v(kind@, name@, needed, ptr@),
{
    let m1 = concat_str("wasm backend unsupported ", kind);
    let m2 = concat_str(m1.as_str(), ": ");
    let m3 = concat_str(m2.as_str(), name);
    let m4 = concat_str(m3.as_str(), " (requires feature ");
    let m5 = concat_str(m4.as_str(), needed.as_str());
    let message = concat_str(m5.as_str(), ")");
    let data = vec![
        ("kind".to_string(), DiagValue::Str(kind.to_string())),
        ("name".to_string(), DiagValue::Str(name.to_string())),
        ("requires_feature".to_string(), DiagValue::Str(needed.as_str().to_string())),
    ];
    let loc = if trim_str(ptr).unicode_len() == 0 {
        None
    } else {
        Some(Location::X07Ast { ptr: ptr.to_string() })
    };
    let code = if str_eq(kind, "form") {
        "X07C_WASM_BACKEND_UNSUPPORTED_FORM"
    } else if str_eq(kind, "builtin") {
        "X07C_WASM_BACKEND_UNSUPPORTED_BUILTIN"
    } else if str_eq(kind, "op") {
        "X07C_WASM_BACKEND_UNSUPPORTED_OP"
    } else if str_eq(kind, "type") {
        "X07C_WASM_BACKEND_UNSUPPORTED_TYPE"
    } else {
        "X07C_WASM_BACKEND_FEATURE_REQUIRED"
    };
    let d = Diagnostic {
        code: code.to_string(),
        severity: Severity::Error,
        stage: Stage::Codegen,
        message: message.clone(),
        loc,
        notes: Vec::new(),
        related: Vec::new(),
        data,
        quickfix: None,
    };
    proof {
        let want = unsupported_diag_v(kind@, name@, needed, ptr@);
        assert(d@.notes =~= want.notes);
        assert(d@.related =~= want.related);
        assert(d@.data =~= want.data);
    }
    CompilerError::with_diagnostic(CompileErrorKind::Unsupported, message, d)
}

/// How many `i32` values represent a value of type `t` (`None` for a type
/// the backend does not lower).
pub open spec fn flat_len(t: Ty) -> Option<nat> {
    match t {
        Ty::I32 => Some(1),
        Ty::Bytes | Ty::BytesView => Some(2),
        Ty::VecU8 => Some(3),
        Ty::Never => Some(0),
        _ => None,
    }
}

pub fn flat_len_for_ty(ty: Ty) -> (r: Result<usize, CompilerError>)
    ensures
        match (r, flat_len(ty)) {
            (Ok(n), Some(m)) => n == m,
            (Err(e), None) => e.kind == CompileErrorKind::Unsupported && (e.diagnostic matches Some(d)
                && d@ == unsupported_diag_v("type"@, ty_name(ty), WasmFeatureV1::CoreFormsV1, ""@)),
            _ => false,
        },
{
    match ty {
        Ty::I32 => Ok(1),
        Ty::Bytes | Ty::BytesView => Ok(2),
        Ty::VecU8 => Ok(3),
        Ty::Never => Ok(0),
        other => Err(wasm_unsupported("type", ty_debug(other), WasmFeatureV1::CoreFormsV1, "")),
    }
}

/// The kind of construct a head names and the feature it needs, if any.
pub open spec fn head_feature(h: Seq<char>) -> Option<(Seq<char>, WasmFeatureV1)> {
    if h == "begin"@ || h == "let"@ || h == "set"@ || h == "set0"@ || h == "return"@ {
        Some(("form"@, WasmFeatureV1::CoreFormsV1))
    } else if h == "if"@ || h == "for"@ {
        Some(("form"@, WasmFeatureV1::ControlFlowV1))
    } else if h == "i32.lit"@ || h == "bytes.lit"@ || h == "bytes.view_lit"@ {
        Some(("builtin"@, WasmFeatureV1::LiteralsV1))
    } else if h == "view.to_bytes"@ {
        Some(("builtin"@, WasmFeatureV1::ViewToBytesV1))
    } else if h == "view.len"@ || h == "view.get_u8"@ || h == "view.slice"@ || h == "view.eq"@ {
        Some(("builtin"@, WasmFeatureV1::ViewReadV1))
    } else if h == "codec.read_u32_le"@ || h == "codec.write_u32_le"@ {
        Some(("builtin"@, WasmFeatureV1::CodecU32LeV1))
    } else if h == "+"@ || h == "-"@ || h == "*"@ || h == "/"@ || h == "%"@ {
        Some(("op"@, WasmFeatureV1::OpsArithV1))
    } else if h == "="@ || h == "<u"@ || h == "<=u"@ || h == ">u"@ || h == ">=u"@ {
        Some(("op"@, WasmFeatureV1::OpsCmpV1))
    } else if h == "<"@ || h == "<="@ || h == ">"@ || h == ">="@ {
        Some(("op"@, WasmFeatureV1::OpsCmpSignedV1))
    } else if h == "!="@ {
        Some(("op"@, WasmFeatureV1::OpsNeqV1))
    } else if h == "&"@ || h == "|"@ || h == "^"@ {
        Some(("op"@, WasmFeatureV1::OpsBitwiseV1))
    } else if h == "&&"@ || h == "||"@ {
        Some(("op"@, WasmFeatureV1::OpsLogicV1))
    } else if h == "<<u"@ || h == ">>u"@ {
        Some(("op"@, WasmFeatureV1::OpsShiftV1))
    } else if seq_starts_with(h, "bytes."@) || seq_starts_with(h, "vec_u8."@) {
        Some(("builtin"@, WasmFeatureV1::BytesBuiltinsV1))
    } else if seq_starts_with(h, "view."@) {
        Some(("builtin"@, WasmFeatureV1::ViewReadV1))
    } else if seq_starts_with(h, "codec."@) {
        Some(("builtin"@, WasmFeatureV1::CodecU32LeV1))
    } else {
        None
    }
}

pub fn required_feature_for_head(head: &str) -> (r: Option<(&'static str, WasmFeatureV1)>)
    ensures
        match (r, head_feature(head@)) {
            (Some((k, f)), Some((k2, f2))) => k@ == k2 && f == f2,
            (None, None) => true,
            _ => false,
        },
{
    let h = head;
    if str_eq(h, "begin") || str_eq(h, "let") || str_eq(h, "set") || str_eq(h, "set0") || str_eq(
        h,
        "return",
    ) {
        Some(("form", WasmFeatureV1::CoreFormsV1))
    } else if str_eq(h, "if") || str_eq(h, "for") {
        Some(("form", WasmFeatureV1::ControlFlowV1))
    } else if str_eq(h, "i32.lit") || str_eq(h, "bytes.lit") || str_eq(h, "bytes.view_lit") {
        Some(("builtin", WasmFeatureV1::LiteralsV1))
    } else if str_eq(h, "view.to_bytes") {
        Some(("builtin", WasmFeatureV1::ViewToBytesV1))
    } else if str_eq(h, "view.len") || str_eq(h, "view.get_u8") || str_eq(h, "view.slice")
        || str_eq(h, "view.eq") {
        Some(("builtin", WasmFeatureV1::ViewReadV1))
    } else if str_eq(h, "codec.read_u32_le") || str_eq(h, "codec.write_u32_le") {
        Some(("builtin", WasmFeatureV1::CodecU32LeV1))
    } else if str_eq(h, "+") || str_eq(h, "-") || str_eq(h, "*") || str_eq(h, "/") || str_eq(
        h,
        "%",
    ) {
        Some(("op", WasmFeatureV1::OpsArithV1))
    } else if str_eq(h, "=") || str_eq(h, "<u") || str_eq(h, "<=u") || str_eq(h, ">u") || str_eq(
        h,
        ">=u",
    ) {
        Some(("op", WasmFeatureV1::OpsCmpV1))
    } else if str_eq(h, "<") || str_eq(h, "<=") || str_eq(h, ">") || str_eq(h, ">=") {
        Some(("op", WasmFeatureV1::OpsCmpSignedV1))
    } else if str_eq(h, "!=") {
        Some(("op", WasmFeatureV1::OpsNeqV1))
    } else if str_eq(h, "&") || str_eq(h, "|") || str_eq(h, "^") {
        Some(("op", WasmFeatureV1::OpsBitwiseV1))
    } else if str_eq(h, "&&") || str_eq(h, "||") {
        Some(("op", WasmFeatureV1::OpsLogicV1))
    } else if str_eq(h, "<<u") || str_eq(h, ">>u") {
        Some(("op", WasmFeatureV1::OpsShiftV1))
    } else if str_starts_with(h, "bytes.") || str_starts_with(h, "vec_u8.") {
        Some(("builtin", WasmFeatureV1::BytesBuiltinsV1))
    } else if str_starts_with(h, "view.") {
        Some(("builtin", WasmFeatureV1::ViewReadV1))
    } else if str_starts_with(h, "codec.") {
        Some(("builtin", WasmFeatureV1::CodecU32LeV1))
    } else {
        None
    }
}

/// The run-length groups of `r` expanded back to the sequence they encode.
pub open spec fn expand_runs(r: Seq<(u32, ValKind)>) -> Seq<ValKind>
    decreases r.len(),
{
    if r.len() == 0 {
        Seq::empty()
    } else {
        expand_runs(r.drop_last()) + Seq::new(r.last().0 as nat, |i: int| r.last().1)
    }
}

/// `r` is the canonical run-length encoding: no empty run, and neighbouring
/// runs of different kinds.
pub open spec fn runs_canonical(r: Seq<(u32, ValKind)>) -> bool {
    &&& forall|i: int| 0 <= i < r.len() ==> (#[trigger] r[i]).0 > 0
    &&& forall|i: int| 0 <= i < r.len() - 1 ==> (#[trigger] r[i]).1 != r[i + 1].1
}

/// Groups consecutive equal local types as `(count, type)`.
pub fn encode_locals(locals: &Vec<ValKind>) -> (r: Vec<(u32, ValKind)>)
    requires
        locals@.len() <= u32::MAX,
    ensures
        expand_runs(r@) == locals@,
        runs_canonical(r@),
{
    let mut out: Vec<(u32, ValKind)> = Vec::new();
    if locals.len() == 0 {
        assert(expand_runs(out@) =~= locals@);
        return out;
    }
    let mut cur = locals[0];
    let mut n: u32 = 1;
    let mut i: usize = 1;
    assert(Seq::new(1, |j: int| cur) =~= locals@.take(1));
    while i < locals.len()
        invariant
            1 <= i <= locals@.len(),
            locals@.len() <= u32::MAX,
            0 < n <= i,
            expand_runs(out@) + Seq::new(n as nat, |j: int| cur) == locals@.take(i as int),
            runs_canonical(out@),
            out@.len() > 0 ==> out@.last().1 != cur,
        decreases locals.len() - i,
    {
        let t = locals[i];
        let ghost before = out@;
        if t == cur {
            n = n + 1;
            assert(expand_runs(out@) + Seq::new(n as nat, |j: int| cur) =~= locals@.take(i + 1)) by {
                assert(locals@.take(i + 1) =~= locals@.take(i as int).push(t));
            }
        } else {
            out.push((n, cur));
            proof {
                assert(out@.drop_last() =~= before);
                assert(expand_runs(out@) =~= locals@.take(i as int));
                assert forall|k: int| 0 <= k < out@.len() - 1 implies (#[trigger] out@[k]).1 != out@[k + 1].1 by {
                    if k < before.len() - 1 {
                        assert(before[k].1 != before[k + 1].1);
                    }
                }
            }
            cur = t;
            n = 1;
            assert(expand_runs(out@) + Seq::new(n as nat, |j: int| cur) =~= locals@.take(i + 1)) by {
                assert(locals@.take(i + 1) =~= locals@.take(i as int).push(t));
            }
        }
        i = i + 1;
    }
    let ghost before = out@;
    out.push((n, cur));
    proof {
        assert(out@.drop_last() =~= before);
        assert(locals@.take(locals@.len() as int) =~= locals@);
        assert forall|k: int| 0 <= k < out@.len() - 1 implies (#[trigger] out@[k]).1 != out@[k + 1].1 by {
            if k < before.len() - 1 {
                assert(before[k].1 != before[k + 1].1);
            }
        }
    }
    out
}

/// Page counts of the memory limits, or the message for the first limit
/// that is not acceptable.
pub open spec fn mem_limits_spec(mem: WasmMemLimits) -> Result<(u32, u32), Seq<char>> {
    match (spec_bytes_to_pages_exact(mem.initial_memory_bytes), spec_bytes_to_pages_exact(mem.max_memory_bytes)) {
        (None, _) => Err(
            "wasm initial_memory_bytes must be a multiple of 65536 (got "@ + dec(
                mem.initial_memory_bytes as nat,
            ) + ")"@,
        ),
        (Some(_), None) => Err(
            "wasm max_memory_bytes must be a multiple of 65536 (got "@ + dec(
                mem.max_memory_bytes as nat,
            ) + ")"@,
        ),
        (Some(a), Some(b)) => if b < a {
            Err(
                "wasm max_memory_bytes must be >= initial_memory_bytes (initial="@ + dec(
                    mem.initial_memory_bytes as nat,
                ) + " max="@ + dec(mem.max_memory_bytes as nat) + ")"@,
            )
        } else if mem.no_growable_memory && b != a {
            Err(
                "wasm-no-growable-memory requires max_memory_bytes == initial_memory_bytes (initial="@
                    + dec(mem.initial_memory_bytes as nat) + " max="@ + dec(
                    mem.max_memory_bytes as nat,
                ) + ")"@,
            )
        } else {
            Ok((a, b))
        },
    }
}

/// Memory limits are accepted exactly when both sizes are whole 64 KiB
/// pages that fit in a `u32` page count, the initial size is at most the
/// maximum, and a memory that may not grow has the two equal; the page
/// counts then times 65536 give back the sizes.
pub proof fn lemma_mem_limits_accepted(mem: WasmMemLimits, a: u32, b: u32)
    ensures
        mem_limits_spec(mem) == Ok::<(u32, u32), Seq<char>>((a, b)) <==> a * 65536 == mem.initial_memory_bytes && b
            * 65536 == mem.max_memory_bytes && a <= b && (mem.no_growable_memory ==> a == b),
{
    crate::wasm_emit::layout::lemma_pages_exact_times_page_size(mem.initial_memory_bytes, a);
    crate::wasm_emit::layout::lemma_pages_exact_times_page_size(mem.max_memory_bytes, b);
}

fn limits_message(prefix: &str, a: u64, mid: &str, b: u64) -> (r: String)
    ensures
        r@ == prefix@ + dec(a as nat) + mid@ + dec(b as nat) + ")"@,
{
    let m1 = concat_str(prefix, u64_to_dec(a).as_str());
    let m2 = concat_str(m1.as_str(), mid);
    let m3 = concat_str(m2.as_str(), u64_to_dec(b).as_str());
    concat_str(m3.as_str(), ")")
}

/// Initial and maximum page counts of the memory limits.
pub fn validate_mem_limits(mem: &WasmMemLimits) -> (r: Result<(u32, u32), CompilerError>)
    ensures
        match (r, mem_limits_spec(*mem)) {
            (Ok(p), Ok(q)) => p == q,
            (Err(e), Err(m)) => e.kind == CompileErrorKind::Parse && e.message@ == m
                && e.diagnostic is None,
            _ => false,
        },
{
    let initial_pages = match bytes_to_pages_exact(mem.initial_memory_bytes) {
        Some(p) => p,
        None => {
            let m1 = concat_str(
                "wasm initial_memory_bytes must be a multiple of 65536 (got ",
                u64_to_dec(mem.initial_memory_bytes).as_str(),
            );
            return Err(CompilerError::new(CompileErrorKind::Parse, concat_str(m1.as_str(), ")")));
        },
    };
    let max_pages = match bytes_to_pages_exact(mem.max_memory_bytes) {
        Some(p) => p,
        None => {
            let m1 = concat_str(
                "wasm max_memory_bytes must be a multiple of 65536 (got ",
                u64_to_dec(mem.max_memory_bytes).as_str(),
            );
            return Err(CompilerError::new(CompileErrorKind::Parse, concat_str(m1.as_str(), ")")));
        },
    };
    if max_pages < initial_pages {
        return Err(
            CompilerError::new(
                CompileErrorKind::Parse,
                limits_message(
                    "wasm max_memory_bytes must be >= initial_memory_bytes (initial=",
                    mem.initial_memory_bytes,
                    " max=",
                    mem.max_memory_bytes,
                ),
            ),
        );
    }
    if mem.no_growable_memory && max_pages != initial_pages {
        return Err(
            CompilerError::new(
                CompileErrorKind::Parse,
                limits_message(
                    "wasm-no-growable-memory requires max_memory_bytes == initial_memory_bytes (initial=",
                    mem.initial_memory_bytes,
                    " max=",
                    mem.max_memory_bytes,
                ),
            ),
        );
    }
    Ok((initial_pages, max_pages))
}

/// The value types that represent values of the types `tys`, in order.
pub open spec fn flat_types(tys: Seq<Ty>) -> Option<nat>
    decreases tys.len(),
{
    if tys.len() == 0 {
        Some(0)
    } else {
        match (flat_types(tys.drop_last()), flat_len(tys.last())) {
            (Some(a), Some(b)) => Some(a + b),
            _ => None,
        }
    }
}

/// The flattened `i32` value types of a signature's types; an error names
/// the first type the backend cannot lower.
pub fn flatten_valtypes(tys: &Vec<Ty>) -> (r: Result<Vec<ValKind>, CompilerError>)
    ensures
        match (r, flat_types(tys@)) {
            (Ok(v), Some(n)) => v@.len() == n,
            (Err(e), None) => e.kind == CompileErrorKind::Unsupported,
            _ => false,
        },
{
    let mut out: Vec<ValKind> = Vec::new();
    let mut i: usize = 0;
    assert(tys@.take(0) =~= Seq::<Ty>::empty());
    while i < tys.len()
        invariant
            i <= tys.len(),
            flat_types(tys@.take(i as int)) == Some(out@.len() as nat),
        decreases tys.len() - i,
    {
        let ty = tys[i];
        proof {
            assert(tys@.take(i + 1).drop_last() =~= tys@.take(i as int));
            assert(tys@.take(i + 1).last() == ty);
        }
        match ty {
            Ty::I32 => {
                out.push(ValKind::I32);
            },
            Ty::Bytes | Ty::BytesView => {
                out.push(ValKind::I32);
                out.push(ValKind::I32);
            },
            Ty::VecU8 => {
                out.push(ValKind::I32);
                out.push(ValKind::I32);
                out.push(ValKind::I32);
            },
            Ty::Never => {},
            other => {
                proof {
                    lemma_flat_types_none_prefix(tys@, i + 1);
                }
                let m = concat_str("wasm backend: unsupported type in signature: ", ty_debug(other));
                return Err(CompilerError::new(CompileErrorKind::Unsupported, m));
            },
        }
        i = i + 1;
    }
    assert(tys@.take(tys.len() as int) =~= tys@);
    Ok(out)
}

proof fn lemma_flat_types_none_prefix(s: Seq<Ty>, k: int)
    requires
        0 <= k <= s.len(),
        flat_types(s.take(k)) is None,
    ensures
        flat_types(s) is None,
    decreases s.len() - k,
{
    if k < s.len() {
        assert(s.take(k + 1).drop_last() =~= s.take(k));
        lemma_flat_types_none_prefix(s, k + 1);
    } else {
        assert(s.take(k) =~= s);
    }
}


/// `n` drops.
pub open spec fn drops(n: nat) -> Seq<Instr> {
    Seq::new(n, |_k: int| Instr::Drop)
}

/// Stores the stack's top values into `ls`, the last local first.
pub open spec fn local_sets_rev(ls: Seq<u32>) -> Seq<Instr> {
    Seq::new(ls.len(), |k: int| Instr::LocalSet(ls[ls.len() - 1 - k]))
}

/// Pushes the values of `ls`, in order.
pub open spec fn local_gets(ls: Seq<u32>) -> Seq<Instr> {
    Seq::new(ls.len(), |k: int| Instr::LocalGet(ls[k]))
}

/// `b` extends `a`: every instruction of `a` is still in place.
pub open spec fn instrs_grow(a: Seq<Instr>, b: Seq<Instr>) -> bool {
    a.len() <= b.len() && forall|i: int| 0 <= i < a.len() ==> #[trigger] b[i] == a[i]
}

/// `d` is stored in `bytes` at some position whose truncation to `u32` is `off`.
pub open spec fn data_at(bytes: Seq<u8>, d: Seq<u8>, off: u32) -> bool {
    exists|start: int|
        0 <= start && start + d.len() <= bytes.len() && #[trigger] bytes.subrange(start, start + d.len())
            == d && off == start as u32
}

/// The data segment under construction: each interned blob with its offset.
#[derive(Debug)]
pub struct DataBuilder {
    pub bytes: Vec<u8>,
    pub offsets: Vec<(Vec<u8>, u32)>,
}

fn bytes_eq(a: &Vec<u8>, b: &[u8]) -> (r: bool)
    ensures
        r == (a@ == b@),
{
    if a.len() != b.len() {
        return false;
    }
    let mut i: usize = 0;
    while i < a.len()
        invariant
            a@.len() == b@.len(),
            i <= a.len(),
            forall|k: int| 0 <= k < i ==> a@[k] == b@[k],
        decreases a.len() - i,
    {
        if a[i] != b[i] {
            return false;
        }
        i = i + 1;
    }
    assert(a@ =~= b@);
    true
}

/// What interning `d` into `before` gives: the offset of the first entry
/// that holds `d`, nothing changed; or, when none does, `d` appended at the
/// old end and recorded there.
pub open spec fn intern_outcome(before: DataBuilder, d: Seq<u8>, off: u32, after: DataBuilder) -> bool {
    let offs = before.offsets@;
    if exists|k: int| 0 <= k < offs.len() && (#[trigger] offs[k]).0@ == d {
        &&& after.bytes == before.bytes
        &&& after.offsets == before.offsets
        &&& exists|k: int|
            0 <= k < offs.len() && (#[trigger] offs[k]).0@ == d && off == offs[k].1 && forall|j: int|
                0 <= j < k ==> (#[trigger] offs[j]).0@ != d
    } else {
        &&& off == before.bytes@.len() as u32
        &&& after.bytes@ == before.bytes@ + d
        &&& after.offsets@.drop_last() == offs
        &&& after.offsets@.len() == offs.len() + 1
        &&& after.offsets@.last().0@ == d
        &&& after.offsets@.last().1 == off
    }
}

/// Interning the same data twice gives the same offset, and the second time
/// changes nothing.
pub proof fn lemma_intern_twice(
    b0: DataBuilder,
    b1: DataBuilder,
    b2: DataBuilder,
    d: Seq<u8>,
    o1: u32,
    o2: u32,
)
    requires
        intern_outcome(b0, d, o1, b1),
        intern_outcome(b1, d, o2, b2),
    ensures
        o2 == o1,
        b2.bytes == b1.bytes,
        b2.offsets == b1.offsets,
{
    let offs0 = b0.offsets@;
    let offs1 = b1.offsets@;
    if exists|k: int| 0 <= k < offs0.len() && (#[trigger] offs0[k]).0@ == d {
        let k1 = choose|k: int|
            0 <= k < offs0.len() && (#[trigger] offs0[k]).0@ == d && o1 == offs0[k].1 && forall|j: int|
                0 <= j < k ==> (#[trigger] offs0[j]).0@ != d;
        assert(offs1 == offs0);
        assert(offs1[k1].0@ == d);
        let k2 = choose|k: int|
            0 <= k < offs1.len() && (#[trigger] offs1[k]).0@ == d && o2 == offs1[k].1 && forall|j: int|
                0 <= j < k ==> (#[trigger] offs1[j]).0@ != d;
        if k1 < k2 {
            assert(offs1[k1].0@ != d);
        } else if k2 < k1 {
            assert(offs0[k2].0@ != d);
        }
    } else {
        let last = offs1.len() - 1;
        assert(offs1[last].0@ == d);
        let k2 = choose|k: int|
            0 <= k < offs1.len() && (#[trigger] offs1[k]).0@ == d && o2 == offs1[k].1 && forall|j: int|
                0 <= j < k ==> (#[trigger] offs1[j]).0@ != d;
        if k2 < last {
            assert(offs1[k2] == offs0[k2]);
            assert(offs0[k2].0@ == d);
        }
    }
}

impl DataBuilder {
    /// Every recorded offset points at its blob.
    pub open spec fn wf(&self) -> bool {
        forall|i: int|
            0 <= i < self.offsets@.len() ==> data_at(
                self.bytes@,
                (#[trigger] self.offsets@[i]).0@,
                self.offsets@[i].1,
            )
    }

    pub fn new() -> (r: Self)
        ensures
            r.wf(),
            r.bytes@.len() == 0,
            r.offsets@.len() == 0,
    {
        DataBuilder { bytes: Vec::new(), offsets: Vec::new() }
    }

    /// The offset of `data` in the segment, appending it the first time.
    pub fn intern(&mut self, data: &[u8]) -> (off: u32)
        requires
            old(self).wf(),
        ensures
            final(self).wf(),
            data_at(final(self).bytes@, data@, off),
            final(self).bytes@.len() >= old(self).bytes@.len(),
            final(self).bytes@.take(old(self).bytes@.len() as int) == old(self).bytes@,
            intern_outcome(*old(self), data@, off, *final(self)),
    {
        let ghost b0 = self.bytes@;
        let mut i: usize = 0;
        while i < self.offsets.len()
            invariant
                self.wf(),
                self.bytes@ == b0,
                self.offsets == old(self).offsets,
                *self == *old(self),
                i <= self.offsets.len(),
                forall|j: int| 0 <= j < i ==> (#[trigger] self.offsets@[j]).0@ != data@,
            decreases self.offsets.len() - i,
        {
            if bytes_eq(&self.offsets[i].0, data) {
                assert(data_at(self.bytes@, self.offsets@[i as int].0@, self.offsets@[i as int].1));
                assert(self.bytes@.take(b0.len() as int) =~= b0);
                return self.offsets[i].1;
            }
            i = i + 1;
        }
        proof {
            let offs = old(self).offsets@;
            assert forall|k: int| 0 <= k < offs.len() implies (#[trigger] offs[k]).0@ != data@ by {
                assert(self.offsets@[k] == offs[k]);
            }
        }
        let start = self.bytes.len();
        let off = start as u32;
        let mut k: usize = 0;
        while k < data.len()
            invariant
                start == b0.len(),
                k <= data.len(),
                self.bytes@ == b0 + data@.take(k as int),
                self.offsets == old(self).offsets,
            decreases data.len() - k,
        {
            self.bytes.push(data[k]);
            k = k + 1;
            assert(self.bytes@ =~= b0 + data@.take(k as int));
        }
        proof {
            assert(data@.take(data@.len() as int) =~= data@);
            let nb = self.bytes@;
            assert(nb.subrange(start as int, start + data@.len()) =~= data@);
            assert forall|j: int| 0 <= j < self.offsets@.len() implies data_at(
                nb,
                (#[trigger] self.offsets@[j]).0@,
                self.offsets@[j].1,
            ) by {
                let d = self.offsets@[j].0@;
                let st = choose|st: int|
                    0 <= st && st + d.len() <= b0.len() && #[trigger] b0.subrange(st, st + d.len()) == d
                        && self.offsets@[j].1 == st as u32;
                assert(nb.subrange(st, st + d.len()) =~= b0.subrange(st, st + d.len()));
            }
            assert(nb.take(b0.len() as int) =~= b0);
        }
        let mut copy: Vec<u8> = Vec::new();
        let mut c: usize = 0;
        while c < data.len()
            invariant
                c <= data.len(),
                copy@ == data@.take(c as int),
            decreases data.len() - c,
        {
            copy.push(data[c]);
            c = c + 1;
            assert(copy@ =~= data@.take(c as int));
        }
        assert(copy@ =~= data@);
        self.offsets.push((copy, off));
        proof {
            assert forall|j: int| 0 <= j < self.offsets@.len() implies data_at(
                self.bytes@,
                (#[trigger] self.offsets@[j]).0@,
                self.offsets@[j].1,
            ) by {
                if j == self.offsets@.len() - 1 {
                    assert(self.bytes@.subrange(start as int, start + data@.len()) == data@);
                }
            }
            let offs = old(self).offsets@;
            assert(!(exists|k: int| 0 <= k < offs.len() && (#[trigger] offs[k]).0@ == data@));
            assert(off == old(self).bytes@.len() as u32);
            assert(self.bytes@ == old(self).bytes@ + data@);
            assert(self.offsets@.drop_last() =~= offs);
            assert(self.offsets@.last().0@ == data@);
        }
        off
    }
}

/// A function body under construction.
#[derive(Debug)]
pub struct FuncCode {
    pub params_flat_len: u32,
    pub locals: Vec<ValKind>,
    pub body: Vec<Instr>,
}

impl FuncCode {
    pub fn new(params_flat_len: u32) -> (r: Self)
        ensures
            r.params_flat_len == params_flat_len,
            r.locals@.len() == 0,
            r.body@.len() == 0,
    {
        FuncCode { params_flat_len, locals: Vec::new(), body: Vec::new() }
    }

    pub fn push(&mut self, instr: Instr)
        ensures
            final(self).body@ == old(self).body@.push(instr),
            final(self).locals == old(self).locals,
            final(self).params_flat_len == old(self).params_flat_len,
    {
        self.body.push(instr);
    }

    /// Appends a run of instructions to the body, in order.
    pub fn push_all(&mut self, instrs: &mut Vec<Instr>)
        ensures
            final(self).body@ == old(self).body@ + old(instrs)@,
            final(self).locals == old(self).locals,
            final(self).params_flat_len == old(self).params_flat_len,
    {
        self.body.append(instrs);
    }

    /// A new `i32` local, numbered after the parameters and earlier locals
    /// (indices wrap at 2^32).
    pub fn new_i32_local(&mut self) -> (idx: u32)
        ensures
            idx == old(self).params_flat_len.wrapping_add(old(self).locals@.len() as u32),
            final(self).locals@ == old(self).locals@.push(ValKind::I32),
            final(self).body == old(self).body,
            final(self).params_flat_len == old(self).params_flat_len,
    {
        let n = self.locals.len() as u32;
        let idx = self.params_flat_len.wrapping_add(n);
        self.locals.push(ValKind::I32);
        idx
    }

    /// Fresh locals for one value of type `ty`.
    pub fn new_locals_for_ty(&mut self, ty: Ty) -> (r: Result<Vec<u32>, CompilerError>)
        ensures
            final(self).body == old(self).body,
            final(self).params_flat_len == old(self).params_flat_len,
            match r {
                Ok(v) => flat_len(ty) == Some(v@.len() as nat),
                Err(_) => flat_len(ty) is None,
            },
    {
        let n = flat_len_for_ty(ty)?;
        let mut out: Vec<u32> = Vec::new();
        let mut i: usize = 0;
        while i < n
            invariant
                i <= n,
                out@.len() == i,
                self.body == old(self).body,
                self.params_flat_len == old(self).params_flat_len,
            decreases n - i,
        {
            out.push(self.new_i32_local());
            i = i + 1;
        }
        Ok(out)
    }
}

/// A name bound in a function body: its type and the locals holding it.
#[derive(Debug)]
pub struct Binding {
    pub ty: Ty,
    pub locals: Vec<u32>,
}

/// A function's parameter and result types.
#[derive(Debug)]
pub struct FuncSig {
    pub params: Vec<Ty>,
    pub ret: Ty,
}

/// What all function bodies of a module share: the function table, the
/// enabled features, the data segment and the runtime's indices.
#[derive(Debug)]
pub struct ModuleCtx {
    pub func_indices: Vec<(String, u32)>,
    pub func_sigs: Vec<(String, FuncSig)>,
    pub features: crate::wasm_emit::features::WasmFeatureSetV1,
    pub data: DataBuilder,
    pub rt_alloc_fn: u32,
    pub solve_fn: u32,
    pub heap_base_global: u32,
    pub heap_ptr_global: u32,
    pub heap_end_global: u32,
}

impl ModuleCtx {
    pub open spec fn wf(&self) -> bool {
        self.data.wf()
    }

    /// The signature last recorded for `name`, copied.
    pub fn sig_of(&self, name: &str) -> (r: Option<(Vec<Ty>, Ty)>)
        ensures
            match last_sig(self.func_sigs@, name@) {
                Some((ps, ret)) => r matches Some((v, t)) && v@ == ps && t == ret,
                None => r is None,
            },
    {
        let mut i = self.func_sigs.len();
        assert(self.func_sigs@.take(i as int) =~= self.func_sigs@);
        while i > 0
            invariant
                i <= self.func_sigs.len(),
                last_sig(self.func_sigs@, name@) == last_sig(self.func_sigs@.take(i as int), name@),
            decreases i,
        {
            assert(self.func_sigs@.take(i as int).drop_last() =~= self.func_sigs@.take(i - 1));
            if str_eq(self.func_sigs[i - 1].0.as_str(), name) {
                let s = &self.func_sigs[i - 1].1;
                let mut params: Vec<Ty> = Vec::new();
                let mut k: usize = 0;
                while k < s.params.len()
                    invariant
                        k <= s.params.len(),
                        params@ == s.params@.take(k as int),
                    decreases s.params.len() - k,
                {
                    params.push(s.params[k]);
                    k = k + 1;
                    assert(params@ =~= s.params@.take(k as int));
                }
                assert(params@ =~= s.params@);
                return Some((params, s.ret));
            }
            i = i - 1;
        }
        None
    }

    /// The function index last recorded for `name`.
    pub fn index_of(&self, name: &str) -> (r: Option<u32>)
        ensures
            r == last_index(self.func_indices@, name@),
    {
        let mut i = self.func_indices.len();
        assert(self.func_indices@.take(i as int) =~= self.func_indices@);
        while i > 0
            invariant
                i <= self.func_indices.len(),
                last_index(self.func_indices@, name@) == last_index(self.func_indices@.take(i as int), name@),
            decreases i,
        {
            assert(self.func_indices@.take(i as int).drop_last() =~= self.func_indices@.take(i - 1));
            if str_eq(self.func_indices[i - 1].0.as_str(), name) {
                return Some(self.func_indices[i - 1].1);
            }
            i = i - 1;
        }
        None
    }
}

/// The signature recorded last for `name`: its parameter and result types.
pub open spec fn last_sig(v: Seq<(String, FuncSig)>, name: Seq<char>) -> Option<(Seq<Ty>, Ty)>
    decreases v.len(),
{
    if v.len() == 0 {
        None
    } else if v.last().0@ == name {
        Some((v.last().1.params@, v.last().1.ret))
    } else {
        last_sig(v.drop_last(), name)
    }
}

/// The function index recorded last for `name`.
pub open spec fn last_index(v: Seq<(String, u32)>, name: Seq<char>) -> Option<u32>
    decreases v.len(),
{
    if v.len() == 0 {
        None
    } else if v.last().0@ == name {
        Some(v.last().1)
    } else {
        last_index(v.drop_last(), name)
    }
}


/// `name`'s last entry in one scope.
pub open spec fn scope_binding(scope: Seq<(String, Binding)>, name: Seq<char>) -> Option<Binding>
    decreases scope.len(),
{
    if scope.len() == 0 {
        None
    } else if scope.last().0@ == name {
        Some(scope.last().1)
    } else {
        scope_binding(scope.drop_last(), name)
    }
}

/// The innermost binding of `name`.
pub open spec fn env_binding(env: Seq<Vec<(String, Binding)>>, name: Seq<char>) -> Option<Binding>
    decreases env.len(),
{
    if env.len() == 0 {
        None
    } else {
        match scope_binding(env.last()@, name) {
            Some(b) => Some(b),
            None => env_binding(env.drop_last(), name),
        }
    }
}

/// The type `e` evaluates to under `env` and the module `m`, where it has one.
pub open spec fn infer_ty_spec(env: Seq<Vec<(String, Binding)>>, m: ModuleCtx, e: ExprV) -> Option<Ty>
    decreases e,
{
    match e {
        ExprV::Int(_, _) => Some(Ty::I32),
        ExprV::Ident(n, _) => match env_binding(env, n) {
            Some(b) => Some(b.ty),
            None => None,
        },
        ExprV::List(items, _) => {
            if items.len() == 0 {
                None
            } else {
                match expr_ident(items[0]) {
                    None => None,
                    Some(h) => {
                        let gated = match head_feature(h) {
                            Some((_, f)) => !m.features.view_set().contains(f),
                            None => false,
                        };
                        let n = items.len() - 1;
                        if gated {
                            None
                        } else if h == "begin"@ {
                            if n == 0 {
                                None
                            } else {
                                infer_ty_spec(env, m, items[n])
                            }
                        } else if h == "let"@ || h == "set"@ || h == "set0"@ || h == "for"@ {
                            Some(Ty::I32)
                        } else if h == "return"@ {
                            Some(Ty::Never)
                        } else if h == "if"@ {
                            if n != 3 {
                                None
                            } else {
                                match (infer_ty_spec(env, m, items[2]), infer_ty_spec(env, m, items[3])) {
                                    (Some(t), Some(u)) => if t == Ty::Never {
                                        Some(u)
                                    } else if u == Ty::Never {
                                        Some(t)
                                    } else if t != u {
                                        None
                                    } else {
                                        Some(t)
                                    },
                                    _ => None,
                                }
                            }
                        } else {
                            match builtin_ty(h) {
                                Some(t) => Some(t),
                                None => match last_sig(m.func_sigs@, h) {
                                    Some((_, r)) => Some(r),
                                    None => None,
                                },
                            }
                        }
                    },
                }
            }
        },
    }
}

/// The type of an operand that is typed without code of its own: an integer
/// literal, or an identifier bound in `env`.
pub open spec fn atom_ty(env: Seq<Vec<(String, Binding)>>, e: ExprV) -> Option<Ty> {
    match e {
        ExprV::Int(_, _) => Some(Ty::I32),
        ExprV::Ident(n, _) => match env_binding(env, n) {
            Some(b) => Some(b.ty),
            None => None,
        },
        ExprV::List(_, _) => None,
    }
}

/// The code an operand of `atom_ty` emits: the literal, or the reads of the
/// locals its binding holds.
pub open spec fn atom_code(env: Seq<Vec<(String, Binding)>>, e: ExprV) -> Seq<Instr> {
    match e {
        ExprV::Int(v, _) => seq![Instr::I32Const(v)],
        ExprV::Ident(n, _) => match env_binding(env, n) {
            Some(b) => local_gets(b.locals@),
            None => Seq::empty(),
        },
        ExprV::List(_, _) => Seq::empty(),
    }
}

/// `e` is such an operand, of type `t`.
pub open spec fn atom_is(env: Seq<Vec<(String, Binding)>>, e: ExprV, t: Ty) -> bool {
    atom_ty(env, e) == Some(t)
}

/// `e` is such an operand, of type `bytes` or `bytes_view`.
pub open spec fn atom_is_byteish(env: Seq<Vec<(String, Binding)>>, e: ExprV) -> bool {
    atom_is(env, e, Ty::BytesView) || atom_is(env, e, Ty::Bytes)
}

/// `e` is a `bytes.lit` form over a text.
pub open spec fn bytes_lit_expr(e: ExprV) -> bool {
    &&& e matches ExprV::List(items, _)
    &&& items.len() == 2
    &&& expr_ident(items[0]) == Some("bytes.lit"@)
    &&& expr_ident(items[1]) is Some
}

/// `e` is a `bytes.lit` form over a text, with literals enabled in `m`.
pub open spec fn bytes_lit_form(m: ModuleCtx, e: ExprV) -> bool {
    &&& bytes_lit_expr(e)
    &&& m.features.view_set().contains(WasmFeatureV1::LiteralsV1)
}

/// `bytes.lit` needs the literals feature, and no head tried before it in
/// the emitter's dispatch is `bytes.lit`.
proof fn lemma_bytes_lit_head()
    ensures
        head_feature("bytes.lit"@) == Some(("builtin"@, WasmFeatureV1::LiteralsV1)),
        binop_head("bytes.lit"@) is None,
        "bytes.lit"@ != "begin"@,
        "bytes.lit"@ != "let"@,
        "bytes.lit"@ != "set"@,
        "bytes.lit"@ != "set0"@,
        "bytes.lit"@ != "if"@,
        "bytes.lit"@ != "for"@,
        "bytes.lit"@ != "return"@,
        "bytes.lit"@ != "i32.lit"@,
        "bytes.lit"@ != "view.len"@,
        "bytes.lit"@ != "view.get_u8"@,
        "bytes.lit"@ != "view.slice"@,
        "bytes.lit"@ != "view.to_bytes"@,
        "bytes.lit"@ != "view.eq"@,
        "bytes.lit"@ != "bytes.view"@,
        "bytes.lit"@ != "bytes.subview"@,
        "bytes.lit"@ != "bytes.len"@,
        "bytes.lit"@ != "bytes.get_u8"@,
        "bytes.lit"@ != "bytes.set_u8"@,
        "bytes.lit"@ != "bytes.alloc"@,
        "bytes.lit"@ != "bytes.concat"@,
        "bytes.lit"@ != "bytes.eq"@,
        "bytes.lit"@ != "bytes.cmp_range"@,
        "bytes.lit"@ != "bytes.slice"@,
{
    reveal_strlit("!=");
    reveal_strlit("%");
    reveal_strlit("&");
    reveal_strlit("&&");
    reveal_strlit("*");
    reveal_strlit("+");
    reveal_strlit("-");
    reveal_strlit("/");
    reveal_strlit("<");
    reveal_strlit("<<u");
    reveal_strlit("<=");
    reveal_strlit("<=u");
    reveal_strlit("<u");
    reveal_strlit("=");
    reveal_strlit(">");
    reveal_strlit(">=");
    reveal_strlit(">=u");
    reveal_strlit(">>u");
    reveal_strlit(">u");
    reveal_strlit("^");
    reveal_strlit("begin");
    reveal_strlit("builtin");
    reveal_strlit("bytes.");
    reveal_strlit("bytes.alloc");
    reveal_strlit("bytes.cmp_range");
    reveal_strlit("bytes.concat");
    reveal_strlit("bytes.eq");
    reveal_strlit("bytes.get_u8");
    reveal_strlit("bytes.len");
    reveal_strlit("bytes.lit");
    reveal_strlit("bytes.set_u8");
    reveal_strlit("bytes.slice");
    reveal_strlit("bytes.subview");
    reveal_strlit("bytes.view");
    reveal_strlit("bytes.view_lit");
    reveal_strlit("codec.");
    reveal_strlit("codec.read_u32_le");
    reveal_strlit("codec.write_u32_le");
    reveal_strlit("for");
    reveal_strlit("form");
    reveal_strlit("i32.lit");
    reveal_strlit("if");
    reveal_strlit("let");
    reveal_strlit("op");
    reveal_strlit("return");
    reveal_strlit("set");
    reveal_strlit("set0");
    reveal_strlit("vec_u8.");
    reveal_strlit("view.");
    reveal_strlit("view.eq");
    reveal_strlit("view.get_u8");
    reveal_strlit("view.len");
    reveal_strlit("view.slice");
    reveal_strlit("view.to_bytes");
    reveal_strlit("|");
    reveal_strlit("||");
    assert("bytes.lit"@[7] != "bytes.len"@[7]);
    assert("bytes.lit"@.len() != "begin"@.len());
    assert("bytes.lit"@.len() != "let"@.len());
    assert("bytes.lit"@.len() != "set"@.len());
    assert("bytes.lit"@.len() != "set0"@.len());
    assert("bytes.lit"@.len() != "if"@.len());
    assert("bytes.lit"@.len() != "for"@.len());
    assert("bytes.lit"@.len() != "return"@.len());
    assert("bytes.lit"@.len() != "i32.lit"@.len());
    assert("bytes.lit"@.len() != "view.len"@.len());
    assert("bytes.lit"@.len() != "view.get_u8"@.len());
    assert("bytes.lit"@.len() != "view.slice"@.len());
    assert("bytes.lit"@.len() != "view.to_bytes"@.len());
    assert("bytes.lit"@.len() != "view.eq"@.len());
    assert("bytes.lit"@.len() != "bytes.view"@.len());
    assert("bytes.lit"@.len() != "bytes.subview"@.len());
    assert("bytes.lit"@.len() != "bytes.get_u8"@.len());
    assert("bytes.lit"@.len() != "bytes.set_u8"@.len());
    assert("bytes.lit"@.len() != "bytes.alloc"@.len());
    assert("bytes.lit"@.len() != "bytes.concat"@.len());
    assert("bytes.lit"@.len() != "bytes.eq"@.len());
    assert("bytes.lit"@.len() != "bytes.cmp_range"@.len());
    assert("bytes.lit"@.len() != "bytes.slice"@.len());
    assert(head_feature("bytes.lit"@) == Some(("builtin"@, WasmFeatureV1::LiteralsV1)));
    assert("bytes.lit"@.len() != "+"@.len());
    assert("bytes.lit"@.len() != "-"@.len());
    assert("bytes.lit"@.len() != "*"@.len());
    assert("bytes.lit"@.len() != "/"@.len());
    assert("bytes.lit"@.len() != "%"@.len());
    assert("bytes.lit"@.len() != "&"@.len());
    assert("bytes.lit"@.len() != "|"@.len());
    assert("bytes.lit"@.len() != "^"@.len());
    assert("bytes.lit"@.len() != "="@.len());
    assert("bytes.lit"@.len() != "!="@.len());
    assert("bytes.lit"@.len() != "<"@.len());
    assert("bytes.lit"@.len() != "<u"@.len());
    assert("bytes.lit"@.len() != "<=u"@.len());
    assert("bytes.lit"@.len() != ">=u"@.len());
    assert("bytes.lit"@.len() != "<="@.len());
    assert("bytes.lit"@.len() != ">="@.len());
    assert("bytes.lit"@.len() != ">"@.len());
    assert("bytes.lit"@.len() != ">u"@.len());
    assert("bytes.lit"@.len() != "<<u"@.len());
    assert("bytes.lit"@.len() != ">>u"@.len());
}

/// The instruction of a binary `i32` operator head, and whether it is a
/// comparison.
pub open spec fn binop_head(h: Seq<char>) -> Option<(Instr, bool)> {
    if h == "+"@ {
        Some((Instr::I32Add, false))
    } else if h == "-"@ {
        Some((Instr::I32Sub, false))
    } else if h == "*"@ {
        Some((Instr::I32Mul, false))
    } else if h == "/"@ {
        Some((Instr::I32DivS, false))
    } else if h == "%"@ {
        Some((Instr::I32RemS, false))
    } else if h == "&"@ {
        Some((Instr::I32And, false))
    } else if h == "|"@ {
        Some((Instr::I32Or, false))
    } else if h == "^"@ {
        Some((Instr::I32Xor, false))
    } else if h == "="@ {
        Some((Instr::I32Eq, true))
    } else if h == "!="@ {
        Some((Instr::I32Ne, true))
    } else if h == "<"@ {
        Some((Instr::I32LtS, true))
    } else if h == "<u"@ {
        Some((Instr::I32LtU, true))
    } else if h == "<=u"@ {
        Some((Instr::I32LeU, true))
    } else if h == ">=u"@ {
        Some((Instr::I32GeU, true))
    } else if h == "<="@ {
        Some((Instr::I32LeS, true))
    } else if h == ">="@ {
        Some((Instr::I32GeS, true))
    } else if h == ">"@ {
        Some((Instr::I32GtS, true))
    } else if h == ">u"@ {
        Some((Instr::I32GtU, true))
    } else if h == "<<u"@ {
        Some((Instr::I32Shl, false))
    } else if h == ">>u"@ {
        Some((Instr::I32ShrU, false))
    } else {
        None
    }
}

/// `x` wrapped into the `i32` range (two's complement, modulo 2^32).
pub open spec fn wrap_i32(x: int) -> int {
    (x + 0x8000_0000) % 0x1_0000_0000 - 0x8000_0000
}

/// The unsigned reading of the bits of `a`.
pub open spec fn unsigned_i32(a: i32) -> int {
    if a < 0 {
        a + 0x1_0000_0000
    } else {
        a as int
    }
}

/// Division rounding toward zero.
pub open spec fn div_toward_zero(a: int, b: int) -> int {
    let q = (if a < 0 { -a } else { a }) / (if b < 0 { -b } else { b });
    if (a < 0) != (b < 0) {
        -q
    } else {
        q
    }
}

pub open spec fn flag(b: bool) -> int {
    if b {
        1
    } else {
        0
    }
}

/// What a WASM `i32` binary instruction leaves on the stack for operands
/// `a` and `b`; `None` where it traps or is no such instruction.
pub open spec fn wasm_i32_binary(op: Instr, a: i32, b: i32) -> Option<int> {
    match op {
        Instr::I32Add => Some(wrap_i32(a + b)),
        Instr::I32Sub => Some(wrap_i32(a - b)),
        Instr::I32Mul => Some(wrap_i32(a * b)),
        Instr::I32DivS => if b == 0 || (a == -0x8000_0000 && b == -1) {
            None
        } else {
            Some(div_toward_zero(a as int, b as int))
        },
        Instr::I32RemS => if b == 0 {
            None
        } else {
            Some(a - b * div_toward_zero(a as int, b as int))
        },
        Instr::I32And => Some((a & b) as int),
        Instr::I32Or => Some((a | b) as int),
        Instr::I32Xor => Some((a ^ b) as int),
        Instr::I32Eq => Some(flag(a == b)),
        Instr::I32Ne => Some(flag(a != b)),
        Instr::I32LtS => Some(flag(a < b)),
        Instr::I32LtU => Some(flag(unsigned_i32(a) < unsigned_i32(b))),
        Instr::I32LeS => Some(flag(a <= b)),
        Instr::I32LeU => Some(flag(unsigned_i32(a) <= unsigned_i32(b))),
        Instr::I32GtS => Some(flag(a > b)),
        Instr::I32GtU => Some(flag(unsigned_i32(a) > unsigned_i32(b))),
        Instr::I32GeS => Some(flag(a >= b)),
        Instr::I32GeU => Some(flag(unsigned_i32(a) >= unsigned_i32(b))),
        Instr::I32Shl => Some(wrap_i32(a * pow2((unsigned_i32(b) % 32) as nat))),
        Instr::I32ShrU => Some(wrap_i32(unsigned_i32(a) / pow2((unsigned_i32(b) % 32) as nat) as int)),
        _ => None,
    }
}

/// What the x07 binary operator `h` means on `i32` operands: wrapping
/// arithmetic, signed division and remainder (undefined on division by
/// zero and on the one overflowing quotient), bitwise operations, `0`/`1`
/// comparisons that are signed unless the head ends in `u`, and shifts by
/// the low five bits of `b`.
pub open spec fn x07_i32_operator(h: Seq<char>, a: i32, b: i32) -> Option<int> {
    if h == "+"@ {
        Some(wrap_i32(a + b))
    } else if h == "-"@ {
        Some(wrap_i32(a - b))
    } else if h == "*"@ {
        Some(wrap_i32(a * b))
    } else if h == "/"@ {
        if b == 0 || (a == -0x8000_0000 && b == -1) {
            None
        } else {
            Some(div_toward_zero(a as int, b as int))
        }
    } else if h == "%"@ {
        if b == 0 {
            None
        } else {
            Some(a - b * div_toward_zero(a as int, b as int))
        }
    } else if h == "&"@ {
        Some((a & b) as int)
    } else if h == "|"@ {
        Some((a | b) as int)
    } else if h == "^"@ {
        Some((a ^ b) as int)
    } else if h == "="@ {
        Some(flag(a == b))
    } else if h == "!="@ {
        Some(flag(a != b))
    } else if h == "<"@ {
        Some(flag(a < b))
    } else if h == "<u"@ {
        Some(flag(unsigned_i32(a) < unsigned_i32(b)))
    } else if h == "<=u"@ {
        Some(flag(unsigned_i32(a) <= unsigned_i32(b)))
    } else if h == ">=u"@ {
        Some(flag(unsigned_i32(a) >= unsigned_i32(b)))
    } else if h == "<="@ {
        Some(flag(a <= b))
    } else if h == ">="@ {
        Some(flag(a >= b))
    } else if h == ">"@ {
        Some(flag(a > b))
    } else if h == ">u"@ {
        Some(flag(unsigned_i32(a) > unsigned_i32(b)))
    } else if h == "<<u"@ {
        Some(wrap_i32(a * pow2((unsigned_i32(b) % 32) as nat)))
    } else if h == ">>u"@ {
        Some(wrap_i32(unsigned_i32(a) / pow2((unsigned_i32(b) % 32) as nat) as int))
    } else {
        None
    }
}

/// Each operator head lowers to an instruction that computes what the
/// operator means, on every pair of operands; the heads that lower are
/// exactly the operators, and those that lower as comparisons give `0` or
/// `1`. So `>` compares signed: `(> -1 0)` is `0`.
pub proof fn lemma_binop_heads_compute_operators(h: Seq<char>, a: i32, b: i32)
    ensures
        binop_head(h) is Some <==> x07_i32_operator(h, a, b) is Some || (h == "/"@ || h == "%"@),
        binop_head(h) matches Some((op, is_comparison)) ==> wasm_i32_binary(op, a, b) == x07_i32_operator(h, a, b)
            && (is_comparison ==> (x07_i32_operator(h, a, b) == Some(0int) || x07_i32_operator(h, a, b) == Some(
            1int,
        ))),
{
}

/// The feature an operator instruction is gated by: arithmetic, unsigned
/// comparison and equality, signed comparison, inequality, bitwise
/// operations and shifts each have their own.
pub open spec fn op_feature(op: Instr) -> Option<WasmFeatureV1> {
    match op {
        Instr::I32Add | Instr::I32Sub | Instr::I32Mul | Instr::I32DivS | Instr::I32RemS => Some(
            WasmFeatureV1::OpsArithV1,
        ),
        Instr::I32Eq | Instr::I32LtU | Instr::I32LeU | Instr::I32GtU | Instr::I32GeU => Some(WasmFeatureV1::OpsCmpV1),
        Instr::I32LtS | Instr::I32LeS | Instr::I32GtS | Instr::I32GeS => Some(WasmFeatureV1::OpsCmpSignedV1),
        Instr::I32Ne => Some(WasmFeatureV1::OpsNeqV1),
        Instr::I32And | Instr::I32Or | Instr::I32Xor => Some(WasmFeatureV1::OpsBitwiseV1),
        Instr::I32Shl | Instr::I32ShrU => Some(WasmFeatureV1::OpsShiftV1),
        _ => None,
    }
}

/// An operator head is gated by the feature of the instruction it lowers
/// to: a signed comparison needs the signed-comparison feature, an
/// unsigned one the comparison feature, and so on.
pub proof fn lemma_operator_feature_matches_instruction(h: Seq<char>)
    ensures
        binop_head(h) matches Some((op, _)) ==> op_feature(op) matches Some(f) && head_feature(h) == Some(
            ("op"@, f),
        ),
{
    reveal_strlit("begin");
    reveal_strlit("let");
    reveal_strlit("set");
    reveal_strlit("set0");
    reveal_strlit("return");
    reveal_strlit("form");
    reveal_strlit("if");
    reveal_strlit("for");
    reveal_strlit("i32.lit");
    reveal_strlit("bytes.lit");
    reveal_strlit("bytes.view_lit");
    reveal_strlit("builtin");
    reveal_strlit("view.to_bytes");
    reveal_strlit("view.len");
    reveal_strlit("view.get_u8");
    reveal_strlit("view.slice");
    reveal_strlit("view.eq");
    reveal_strlit("codec.read_u32_le");
    reveal_strlit("codec.write_u32_le");
    reveal_strlit("+");
    reveal_strlit("-");
    reveal_strlit("*");
    reveal_strlit("/");
    reveal_strlit("%");
    reveal_strlit("op");
    reveal_strlit("=");
    reveal_strlit("<u");
    reveal_strlit("<=u");
    reveal_strlit(">u");
    reveal_strlit(">=u");
    reveal_strlit("<");
    reveal_strlit("<=");
    reveal_strlit(">");
    reveal_strlit(">=");
    reveal_strlit("!=");
    reveal_strlit("&");
    reveal_strlit("|");
    reveal_strlit("^");
    reveal_strlit("&&");
    reveal_strlit("||");
    reveal_strlit("<<u");
    reveal_strlit(">>u");
    reveal_strlit("bytes.");
    reveal_strlit("vec_u8.");
    reveal_strlit("view.");
    reveal_strlit("codec.");
    assert("begin"@.len() == 5);
    assert("let"@.len() == 3);
    assert("set"@.len() == 3);
    assert("set0"@.len() == 4);
    assert("return"@.len() == 6);
    assert("form"@.len() == 4);
    assert("if"@.len() == 2);
    assert("for"@.len() == 3);
    assert("i32.lit"@.len() == 7);
    assert("bytes.lit"@.len() == 9);
    assert("bytes.view_lit"@.len() == 14);
    assert("builtin"@.len() == 7);
    assert("view.to_bytes"@.len() == 13);
    assert("view.len"@.len() == 8);
    assert("view.get_u8"@.len() == 11);
    assert("view.slice"@.len() == 10);
    assert("view.eq"@.len() == 7);
    assert("codec.read_u32_le"@.len() == 17);
    assert("codec.write_u32_le"@.len() == 18);
    assert("+"@.len() == 1);
    assert("-"@.len() == 1);
    assert("*"@.len() == 1);
    assert("/"@.len() == 1);
    assert("%"@.len() == 1);
    assert("op"@.len() == 2);
    assert("="@.len() == 1);
    assert("<u"@.len() == 2);
    assert("<=u"@.len() == 3);
    assert(">u"@.len() == 2);
    assert(">=u"@.len() == 3);
    assert("<"@.len() == 1);
    assert("<="@.len() == 2);
    assert(">"@.len() == 1);
    assert(">="@.len() == 2);
    assert("!="@.len() == 2);
    assert("&"@.len() == 1);
    assert("|"@.len() == 1);
    assert("^"@.len() == 1);
    assert("&&"@.len() == 2);
    assert("||"@.len() == 2);
    assert("<<u"@.len() == 3);
    assert(">>u"@.len() == 3);
    assert("bytes."@.len() == 6);
    assert("vec_u8."@.len() == 7);
    assert("view."@.len() == 5);
    assert("codec."@.len() == 6);
    assert("begin"@[0] == 'b' && "view."@[0] == 'v');
    assert("let"@[0] == 'l' && "set"@[0] == 's');
    assert("form"@[0] == 'f' && "set0"@[0] == 's');
    assert("if"@[0] == 'i' && "op"@[0] == 'o');
    assert("if"@[0] == 'i' && "||"@[0] == '|');
    assert("for"@[0] == 'f' && "let"@[0] == 'l');
    assert("for"@[0] == 'f' && "set"@[0] == 's');
    assert("i32.lit"@[0] == 'i' && "view.eq"@[0] == 'v');
    assert("i32.lit"@[0] == 'i' && "vec_u8."@[0] == 'v');
    assert("builtin"@[0] == 'b' && "i32.lit"@[0] == 'i');
    assert("builtin"@[0] == 'b' && "view.eq"@[0] == 'v');
    assert("builtin"@[0] == 'b' && "vec_u8."@[0] == 'v');
    assert("+"@[0] == '+' && "-"@[0] == '-');
    assert("+"@[0] == '+' && "/"@[0] == '/');
    assert("+"@[0] == '+' && "="@[0] == '=');
    assert("+"@[0] == '+' && "<"@[0] == '<');
    assert("+"@[0] == '+' && ">"@[0] == '>');
    assert("+"@[0] == '+' && "|"@[0] == '|');
    assert("+"@[0] == '+' && "^"@[0] == '^');
    assert("-"@[0] == '-' && "/"@[0] == '/');
    assert("-"@[0] == '-' && "="@[0] == '=');
    assert("-"@[0] == '-' && "<"@[0] == '<');
    assert("-"@[0] == '-' && ">"@[0] == '>');
    assert("-"@[0] == '-' && "|"@[0] == '|');
    assert("-"@[0] == '-' && "^"@[0] == '^');
    assert("*"@[0] == '*' && "+"@[0] == '+');
    assert("*"@[0] == '*' && "-"@[0] == '-');
    assert("*"@[0] == '*' && "/"@[0] == '/');
    assert("*"@[0] == '*' && "="@[0] == '=');
    assert("*"@[0] == '*' && "<"@[0] == '<');
    assert("*"@[0] == '*' && ">"@[0] == '>');
    assert("*"@[0] == '*' && "|"@[0] == '|');
    assert("*"@[0] == '*' && "^"@[0] == '^');
    assert("/"@[0] == '/' && "="@[0] == '=');
    assert("/"@[0] == '/' && "<"@[0] == '<');
    assert("/"@[0] == '/' && ">"@[0] == '>');
    assert("/"@[0] == '/' && "|"@[0] == '|');
    assert("/"@[0] == '/' && "^"@[0] == '^');
    assert("%"@[0] == '%' && "+"@[0] == '+');
    assert("%"@[0] == '%' && "-"@[0] == '-');
    assert("%"@[0] == '%' && "*"@[0] == '*');
    assert("%"@[0] == '%' && "/"@[0] == '/');
    assert("%"@[0] == '%' && "="@[0] == '=');
    assert("%"@[0] == '%' && "<"@[0] == '<');
    assert("%"@[0] == '%' && ">"@[0] == '>');
    assert("%"@[0] == '%' && "&"@[0] == '&');
    assert("%"@[0] == '%' && "|"@[0] == '|');
    assert("%"@[0] == '%' && "^"@[0] == '^');
    assert("op"@[0] == 'o' && "||"@[0] == '|');
    assert("="@[0] == '=' && ">"@[0] == '>');
    assert("="@[0] == '=' && "|"@[0] == '|');
    assert("="@[0] == '=' && "^"@[0] == '^');
    assert("<u"@[0] == '<' && "if"@[0] == 'i');
    assert("<u"@[0] == '<' && "op"@[0] == 'o');
    assert("<u"@[0] == '<' && ">u"@[0] == '>');
    assert("<u"@[0] == '<' && ">="@[0] == '>');
    assert("<u"@[0] == '<' && "||"@[0] == '|');
    assert("<=u"@[0] == '<' && "let"@[0] == 'l');
    assert("<=u"@[0] == '<' && "set"@[0] == 's');
    assert("<=u"@[0] == '<' && "for"@[0] == 'f');
    assert("<=u"@[0] == '<' && ">=u"@[0] == '>');
    assert("<=u"@[0] == '<' && ">>u"@[0] == '>');
    assert(">u"@[0] == '>' && "if"@[0] == 'i');
    assert(">u"@[0] == '>' && "op"@[0] == 'o');
    assert(">u"@[0] == '>' && "||"@[0] == '|');
    assert(">=u"@[0] == '>' && "let"@[0] == 'l');
    assert(">=u"@[0] == '>' && "set"@[0] == 's');
    assert(">=u"@[0] == '>' && "for"@[0] == 'f');
    assert(">=u"@[1] == '=' && ">>u"@[1] == '>');
    assert("<"@[0] == '<' && "="@[0] == '=');
    assert("<"@[0] == '<' && ">"@[0] == '>');
    assert("<"@[0] == '<' && "|"@[0] == '|');
    assert("<"@[0] == '<' && "^"@[0] == '^');
    assert("<="@[0] == '<' && "if"@[0] == 'i');
    assert("<="@[0] == '<' && "op"@[0] == 'o');
    assert("<="@[1] == '=' && "<u"@[1] == 'u');
    assert("<="@[0] == '<' && ">u"@[0] == '>');
    assert("<="@[0] == '<' && ">="@[0] == '>');
    assert("<="@[0] == '<' && "||"@[0] == '|');
    assert(">"@[0] == '>' && "|"@[0] == '|');
    assert(">"@[0] == '>' && "^"@[0] == '^');
    assert(">="@[0] == '>' && "if"@[0] == 'i');
    assert(">="@[0] == '>' && "op"@[0] == 'o');
    assert(">="@[1] == '=' && ">u"@[1] == 'u');
    assert(">="@[0] == '>' && "||"@[0] == '|');
    assert("!="@[0] == '!' && "if"@[0] == 'i');
    assert("!="@[0] == '!' && "op"@[0] == 'o');
    assert("!="@[0] == '!' && "<u"@[0] == '<');
    assert("!="@[0] == '!' && ">u"@[0] == '>');
    assert("!="@[0] == '!' && "<="@[0] == '<');
    assert("!="@[0] == '!' && ">="@[0] == '>');
    assert("!="@[0] == '!' && "&&"@[0] == '&');
    assert("!="@[0] == '!' && "||"@[0] == '|');
    assert("&"@[0] == '&' && "+"@[0] == '+');
    assert("&"@[0] == '&' && "-"@[0] == '-');
    assert("&"@[0] == '&' && "*"@[0] == '*');
    assert("&"@[0] == '&' && "/"@[0] == '/');
    assert("&"@[0] == '&' && "="@[0] == '=');
    assert("&"@[0] == '&' && "<"@[0] == '<');
    assert("&"@[0] == '&' && ">"@[0] == '>');
    assert("&"@[0] == '&' && "|"@[0] == '|');
    assert("&"@[0] == '&' && "^"@[0] == '^');
    assert("^"@[0] == '^' && "|"@[0] == '|');
    assert("&&"@[0] == '&' && "if"@[0] == 'i');
    assert("&&"@[0] == '&' && "op"@[0] == 'o');
    assert("&&"@[0] == '&' && "<u"@[0] == '<');
    assert("&&"@[0] == '&' && ">u"@[0] == '>');
    assert("&&"@[0] == '&' && "<="@[0] == '<');
    assert("&&"@[0] == '&' && ">="@[0] == '>');
    assert("&&"@[0] == '&' && "||"@[0] == '|');
    assert("<<u"@[0] == '<' && "let"@[0] == 'l');
    assert("<<u"@[0] == '<' && "set"@[0] == 's');
    assert("<<u"@[0] == '<' && "for"@[0] == 'f');
    assert("<<u"@[1] == '<' && "<=u"@[1] == '=');
    assert("<<u"@[0] == '<' && ">=u"@[0] == '>');
    assert("<<u"@[0] == '<' && ">>u"@[0] == '>');
    assert(">>u"@[0] == '>' && "let"@[0] == 'l');
    assert(">>u"@[0] == '>' && "set"@[0] == 's');
    assert(">>u"@[0] == '>' && "for"@[0] == 'f');
    assert("bytes."@[0] == 'b' && "return"@[0] == 'r');
    assert("bytes."@[0] == 'b' && "codec."@[0] == 'c');
    assert("vec_u8."@[1] == 'e' && "view.eq"@[1] == 'i');
    assert("codec."@[0] == 'c' && "return"@[0] == 'r');
    if h == "+"@ {
    } else if h == "-"@ {
    } else if h == "*"@ {
    } else if h == "/"@ {
    } else if h == "%"@ {
    } else if h == "&"@ {
    } else if h == "|"@ {
    } else if h == "^"@ {
    } else if h == "="@ {
    } else if h == "!="@ {
    } else if h == "<"@ {
    } else if h == "<u"@ {
    } else if h == "<=u"@ {
    } else if h == ">=u"@ {
    } else if h == "<="@ {
    } else if h == ">="@ {
    } else if h == ">"@ {
    } else if h == ">u"@ {
    } else if h == "<<u"@ {
    } else if h == ">>u"@ {
    } else if h == "+"@ {
    } else if h == "-"@ {
    } else if h == "*"@ {
    } else if h == "/"@ {
    } else if h == "%"@ {
    } else if h == "&"@ {
    } else if h == "|"@ {
    } else if h == "^"@ {
    } else if h == "="@ {
    } else if h == "!="@ {
    } else if h == "<"@ {
    } else if h == "<u"@ {
    } else if h == "<=u"@ {
    } else if h == ">=u"@ {
    } else if h == "<="@ {
    } else if h == ">="@ {
    } else if h == ">"@ {
    } else if h == ">u"@ {
    } else if h == "<<u"@ {
    } else if h == ">>u"@ {
    }
}

/// The instruction of a binary `i32` operator head, and whether it is a
/// comparison.
pub fn binop_of_head(h: &str) -> (r: Option<(Instr, bool)>)
    ensures
        r == binop_head(h@),
{
    if str_eq(h, "+") {
        Some((Instr::I32Add, false))
    } else if str_eq(h, "-") {
        Some((Instr::I32Sub, false))
    } else if str_eq(h, "*") {
        Some((Instr::I32Mul, false))
    } else if str_eq(h, "/") {
        Some((Instr::I32DivS, false))
    } else if str_eq(h, "%") {
        Some((Instr::I32RemS, false))
    } else if str_eq(h, "&") {
        Some((Instr::I32And, false))
    } else if str_eq(h, "|") {
        Some((Instr::I32Or, false))
    } else if str_eq(h, "^") {
        Some((Instr::I32Xor, false))
    } else if str_eq(h, "=") {
        Some((Instr::I32Eq, true))
    } else if str_eq(h, "!=") {
        Some((Instr::I32Ne, true))
    } else if str_eq(h, "<") {
        Some((Instr::I32LtS, true))
    } else if str_eq(h, "<u") {
        Some((Instr::I32LtU, true))
    } else if str_eq(h, "<=u") {
        Some((Instr::I32LeU, true))
    } else if str_eq(h, ">=u") {
        Some((Instr::I32GeU, true))
    } else if str_eq(h, "<=") {
        Some((Instr::I32LeS, true))
    } else if str_eq(h, ">=") {
        Some((Instr::I32GeS, true))
    } else if str_eq(h, ">") {
        Some((Instr::I32GtS, true))
    } else if str_eq(h, ">u") {
        Some((Instr::I32GtU, true))
    } else if str_eq(h, "<<u") {
        Some((Instr::I32Shl, false))
    } else if str_eq(h, ">>u") {
        Some((Instr::I32ShrU, false))
    } else {
        None
    }
}

/// The feature `h` needs, if any, is enabled in `m`.
pub open spec fn head_feature_on(m: ModuleCtx, h: Seq<char>) -> bool {
    match head_feature(h) {
        Some((_, f)) => m.features.view_set().contains(f),
        None => true,
    }
}

/// The head identifier of a list and the error when there is none.
pub fn split_head(items: &Vec<Expr>) -> (r: Result<&str, CompilerError>)
    ensures
        match r {
            Ok(h) => items@.len() >= 1 && expr_ident(items@[0]@) == Some(h@),
            Err(e) => e.kind == CompileErrorKind::Parse && (items@.len() == 0 ==> e.message@
                == "empty list expression"@) && (items@.len() > 0 ==> expr_ident(items@[0]@) is None
                && e.message@ == "head must be an identifier"@),
        },
{
    if items.len() == 0 {
        return Err(CompilerError::new(CompileErrorKind::Parse, "empty list expression".to_string()));
    }
    match items[0].as_ident() {
        Some(h) => Ok(h),
        None => Err(CompilerError::new(CompileErrorKind::Parse, "head must be an identifier".to_string())),
    }
}

fn pair_msg(pa: &str, a: Ty, pb: &str, b: Ty) -> (r: String)
    ensures
        r@ == pa@ + ty_name(a) + pb@ + ty_name(b),
{
    let m1 = concat_str(pa, ty_debug(a));
    let m2 = concat_str(m1.as_str(), pb);
    concat_str(m2.as_str(), ty_debug(b))
}

proof fn lemma_scope_binding_none(scope: Seq<(String, Binding)>, name: Seq<char>)
    requires
        forall|k: int| 0 <= k < scope.len() ==> (#[trigger] scope[k]).0@ != name,
    ensures
        scope_binding(scope, name) is None,
    decreases scope.len(),
{
    if scope.len() > 0 {
        assert(scope.last() == scope[scope.len() - 1]);
        lemma_scope_binding_none(scope.drop_last(), name);
    }
}

/// An empty innermost scope changes no operand's type.
proof fn lemma_atom_ty_scope(env: Seq<Vec<(String, Binding)>>, inner: Seq<Vec<(String, Binding)>>, e: ExprV)
    ensures
        inner.len() == env.len() + 1 && inner.drop_last() == env && inner.last()@.len() == 0 ==> atom_ty(inner, e)
            == atom_ty(env, e),
{
    if inner.len() == env.len() + 1 && inner.last()@.len() == 0 {
        match e {
            ExprV::Ident(n, _) => {
                assert(scope_binding(inner.last()@, n) is None);
            },
            _ => {},
        }
    }
}

proof fn lemma_scope_binding_some(scope: Seq<(String, Binding)>, name: Seq<char>, k: int)
    requires
        0 <= k < scope.len(),
        scope[k].0@ == name,
    ensures
        scope_binding(scope, name) is Some,
    decreases scope.len(),
{
    if scope.last().0@ != name {
        assert(scope.drop_last()[k] == scope[k]);
        lemma_scope_binding_some(scope.drop_last(), name, k);
    }
}

/// The result type of a builtin the backend lowers directly.
pub open spec fn builtin_ty(h: Seq<char>) -> Option<Ty> {
    if h == "i32.lit"@ || h == "view.len"@ || h == "view.get_u8"@ || h == "view.eq"@ || h
        == "bytes.len"@ || h == "bytes.get_u8"@ || h == "bytes.eq"@ || h == "bytes.cmp_range"@ || h
        == "codec.read_u32_le"@ || h == "vec_u8.len"@ || h == "vec_u8.get"@ {
        Some(Ty::I32)
    } else if h == "view.slice"@ || h == "bytes.view"@ || h == "bytes.subview"@ || h
        == "bytes.view_lit"@ || h == "vec_u8.as_view"@ {
        Some(Ty::BytesView)
    } else if h == "view.to_bytes"@ || h == "bytes.set_u8"@ || h == "bytes.alloc"@ || h
        == "bytes.concat"@ || h == "bytes.slice"@ || h == "bytes.lit"@ || h == "codec.write_u32_le"@
        || h == "vec_u8.into_bytes"@ {
        Some(Ty::Bytes)
    } else if h == "vec_u8.with_capacity"@ || h == "vec_u8.push"@ || h == "vec_u8.reserve_exact"@
        || h == "vec_u8.extend_bytes"@ || h == "vec_u8.extend_bytes_range"@ {
        Some(Ty::VecU8)
    } else if h == "+"@ || h == "-"@ || h == "*"@ || h == "/"@ || h == "%"@ || h == "="@ || h
        == "!="@ || h == "<"@ || h == "<u"@ || h == "<=u"@ || h == ">u"@ || h == ">=u"@ || h == "<="@
        || h == ">"@ || h == ">="@ || h == "&&"@ || h == "||"@ || h == "&"@ || h == "|"@ || h == "^"@
        || h == "<<u"@ || h == ">>u"@ {
        Some(Ty::I32)
    } else {
        None
    }
}

pub fn builtin_result_ty(h: &str) -> (r: Option<Ty>)
    ensures
        r == builtin_ty(h@),
{
    if str_eq(h, "i32.lit") || str_eq(h, "view.len") || str_eq(h, "view.get_u8") || str_eq(h, "view.eq")
        || str_eq(h, "bytes.len") || str_eq(h, "bytes.get_u8") || str_eq(h, "bytes.eq") || str_eq(
        h,
        "bytes.cmp_range",
    ) || str_eq(h, "codec.read_u32_le") || str_eq(h, "vec_u8.len") || str_eq(h, "vec_u8.get") {
        Some(Ty::I32)
    } else if str_eq(h, "view.slice") || str_eq(h, "bytes.view") || str_eq(h, "bytes.subview")
        || str_eq(h, "bytes.view_lit") || str_eq(h, "vec_u8.as_view") {
        Some(Ty::BytesView)
    } else if str_eq(h, "view.to_bytes") || str_eq(h, "bytes.set_u8") || str_eq(h, "bytes.alloc")
        || str_eq(h, "bytes.concat") || str_eq(h, "bytes.slice") || str_eq(h, "bytes.lit") || str_eq(
        h,
        "codec.write_u32_le",
    ) || str_eq(h, "vec_u8.into_bytes") {
        Some(Ty::Bytes)
    } else if str_eq(h, "vec_u8.with_capacity") || str_eq(h, "vec_u8.push") || str_eq(
        h,
        "vec_u8.reserve_exact",
    ) || str_eq(h, "vec_u8.extend_bytes") || str_eq(h, "vec_u8.extend_bytes_range") {
        Some(Ty::VecU8)
    } else if str_eq(h, "+") || str_eq(h, "-") || str_eq(h, "*") || str_eq(h, "/") || str_eq(h, "%")
        || str_eq(h, "=") || str_eq(h, "!=") || str_eq(h, "<") || str_eq(h, "<u") || str_eq(h, "<=u")
        || str_eq(h, ">u") || str_eq(h, ">=u") || str_eq(h, "<=") || str_eq(h, ">") || str_eq(h, ">=")
        || str_eq(h, "&&") || str_eq(h, "||") || str_eq(h, "&") || str_eq(h, "|") || str_eq(h, "^")
        || str_eq(h, "<<u") || str_eq(h, ">>u") {
        Some(Ty::I32)
    } else {
        None
    }
}

fn got1(prefix: &str, a: Ty) -> (r: String)
    ensures
        r@ == prefix@ + ty_name(a) + ")"@,
{
    let m = concat_str(prefix, ty_debug(a));
    concat_str(m.as_str(), ")")
}

fn got2(prefix: &str, a: Ty, b: Ty) -> (r: String)
    ensures
        r@ == prefix@ + ty_name(a) + ", "@ + ty_name(b) + ")"@,
{
    let m1 = concat_str(prefix, ty_debug(a));
    let m2 = concat_str(m1.as_str(), ", ");
    let m3 = concat_str(m2.as_str(), ty_debug(b));
    concat_str(m3.as_str(), ")")
}

fn got4(prefix: &str, a: Ty, b: Ty, c: Ty, d: Ty) -> (r: String)
    ensures
        r@ == prefix@ + ty_name(a) + ", "@ + ty_name(b) + ", "@ + ty_name(c) + ", "@ + ty_name(d) + ")"@,
{
    let m1 = concat_str(prefix, ty_debug(a));
    let m2 = concat_str(m1.as_str(), ", ");
    let m3 = concat_str(m2.as_str(), ty_debug(b));
    let m4 = concat_str(m3.as_str(), ", ");
    let m5 = concat_str(m4.as_str(), ty_debug(c));
    let m6 = concat_str(m5.as_str(), ", ");
    let m7 = concat_str(m6.as_str(), ty_debug(d));
    concat_str(m7.as_str(), ")")
}

/// A function body being lowered: the module it belongs to, its code so
/// far and the scopes of its bindings.
#[derive(Debug)]
pub struct ExprEmitter {
    pub module: ModuleCtx,
    pub f: FuncCode,
    pub env: Vec<Vec<(String, Binding)>>,
}

impl ExprEmitter {
    /// There is a current scope and the data segment is consistent.
    pub open spec fn wf(&self) -> bool {
        self.env@.len() >= 1 && self.module.wf()
    }

    pub fn new(module: ModuleCtx, f: FuncCode) -> (r: Self)
        requires
            module.wf(),
        ensures
            r.wf(),
            r.module == module,
            r.f == f,
            r.env@.len() == 1,
            r.env@[0]@.len() == 0,
    {
        ExprEmitter { module, f, env: vec![Vec::new()] }
    }

    pub fn push_scope(&mut self)
        requires
            old(self).wf(),
        ensures
            final(self).wf(),
            final(self).env@.len() == old(self).env@.len() + 1,
            final(self).f == old(self).f,
            final(self).module == old(self).module,
            final(self).env@.drop_last() == old(self).env@,
            final(self).env@.last()@.len() == 0,
    {
        self.env.push(Vec::new());
    }

    pub fn pop_scope(&mut self)
        requires
            old(self).env@.len() >= 2,
            old(self).module.wf(),
        ensures
            final(self).wf(),
            final(self).env@.len() == old(self).env@.len() - 1,
            final(self).f == old(self).f,
            final(self).module == old(self).module,
            final(self).env@ == old(self).env@.drop_last(),
    {
        let _ = self.env.pop();
    }

    /// Binds `name` in the current scope; a second binding of the same name
    /// in one scope is an error.
    pub fn bind(&mut self, name: String, binding: Binding) -> (r: Result<(), CompilerError>)
        requires
            old(self).wf(),
        ensures
            final(self).wf(),
            final(self).env@.len() == old(self).env@.len(),
            final(self).f == old(self).f,
            final(self).module == old(self).module,
            r is Err ==> final(self).env == old(self).env,
            r matches Err(e) ==> e.kind == CompileErrorKind::Typing && e.message@
                == "duplicate let binding in same scope: "@ + spec_debug_str(name@),
            r is Ok <==> scope_binding(old(self).env@.last()@, name@) is None,
            r is Ok ==> final(self).env@.drop_last() == old(self).env@.drop_last() && final(self).env@.last()@
                == old(self).env@.last()@.push((name, binding)),
    {
        let last = self.env.len() - 1;
        let mut i: usize = 0;
        while i < self.env[last].len()
            invariant
                *self == *old(self),
                self.wf(),
                last == self.env@.len() - 1,
                i <= self.env@[last as int]@.len(),
                forall|k: int| 0 <= k < i ==> (#[trigger] self.env@[last as int]@[k]).0@ != name@,
            decreases self.env@[last as int]@.len() - i,
        {
            if str_eq(self.env[last][i].0.as_str(), name.as_str()) {
                proof {
                    lemma_scope_binding_some(self.env@[last as int]@, name@, i as int);
                }
                let m = concat_str("duplicate let binding in same scope: ", debug_str(name.as_str()).as_str());
                return Err(CompilerError::new(CompileErrorKind::Typing, m));
            }
            i = i + 1;
        }
        proof {
            lemma_scope_binding_none(self.env@[last as int]@, name@);
        }
        let mut scope = self.env.pop().unwrap();
        scope.push((name, binding));
        self.env.push(scope);
        Ok(())
    }

    /// The type and locals of the innermost binding of `name`.
    pub fn lookup(&self, name: &str) -> (r: Option<(Ty, Vec<u32>)>)
        ensures
            match (r, env_binding(self.env@, name@)) {
                (Some((t, ls)), Some(b)) => t == b.ty && ls@ == b.locals@,
                (None, None) => true,
                _ => false,
            },
    {
        let mut si: usize = self.env.len();
        assert(self.env@.take(si as int) =~= self.env@);
        while si > 0
            invariant
                si <= self.env@.len(),
                env_binding(self.env@, name@) == env_binding(self.env@.take(si as int), name@),
            decreases si,
        {
            let ghost st = self.env@.take(si as int);
            assert(st.last() == self.env@[si - 1]);
            assert(st.drop_last() =~= self.env@.take(si - 1));
            let mut j: usize = self.env[si - 1].len();
            let ghost sc = self.env@[si - 1]@;
            assert(sc.take(j as int) =~= sc);
            while j > 0
                invariant
                    0 < si <= self.env@.len(),
                    sc == self.env@[si - 1]@,
                    st == self.env@.take(si as int),
                    st.last() == self.env@[si - 1],
                    env_binding(self.env@, name@) == env_binding(st, name@),
                    j <= sc.len(),
                    scope_binding(sc, name@) == scope_binding(sc.take(j as int), name@),
                decreases j,
            {
                assert(sc.take(j as int).last() == sc[j - 1]);
                assert(sc.take(j as int).drop_last() =~= sc.take(j - 1));
                if str_eq(self.env[si - 1][j - 1].0.as_str(), name) {
                    let b = &self.env[si - 1][j - 1].1;
                    let mut ls: Vec<u32> = Vec::new();
                    let mut k: usize = 0;
                    while k < b.locals.len()
                        invariant
                            k <= b.locals@.len(),
                            ls@ == b.locals@.take(k as int),
                        decreases b.locals.len() - k,
                    {
                        ls.push(b.locals[k]);
                        k = k + 1;
                        assert(ls@ =~= b.locals@.take(k as int));
                    }
                    assert(ls@ =~= b.locals@);
                    return Some((b.ty, ls));
                }
                j = j - 1;
            }
            assert(sc.take(0) =~= Seq::<(String, Binding)>::empty());
            si = si - 1;
        }
        None
    }

    /// Errors when `head` needs a feature that is not enabled.
    pub fn require_head_feature(&self, head: &str, ptr: &str) -> (r: Result<(), CompilerError>)
        ensures
            match head_feature(head@) {
                None => r is Ok,
                Some((k, f)) => if self.module.features.view_set().contains(f) {
                    r is Ok
                } else {
                    r matches Err(e) && e.kind == CompileErrorKind::Unsupported && (e.diagnostic matches Some(d)
                        && d@ == unsupported_diag_v(k, head@, f, ptr@))
                },
            },
    {
        match required_feature_for_head(head) {
            None => Ok(()),
            Some((kind, feature)) => {
                if self.module.features.has(feature) {
                    Ok(())
                } else {
                    Err(wasm_unsupported(kind, head, feature, ptr))
                }
            },
        }
    }

    /// The type an expression evaluates to, without emitting it.
    pub fn infer_ty(&self, expr: &Expr) -> (r: Result<Ty, CompilerError>)
        ensures
            match infer_ty_spec(self.env@, self.module, expr@) {
                Some(t) => r == Ok::<Ty, CompilerError>(t),
                None => r is Err,
            },
        decreases expr@,
    {
        match expr {
            Expr::Int { .. } => Ok(Ty::I32),
            Expr::Ident { name, .. } => match self.lookup(name.as_str()) {
                Some((t, _)) => Ok(t),
                None => {
                    let m = concat_str("unknown identifier: ", debug_str(name.as_str()).as_str());
                    Err(CompilerError::new(CompileErrorKind::Typing, m))
                },
            },
            Expr::List { items, ptr } => {
                proof {
                    crate::ast::lemma_view_exprs(items@);
                }
                let head = split_head(items)?;
                self.require_head_feature(head, ptr.as_str())?;
                let n = items.len() - 1;
                if str_eq(head, "begin") {
                    if n == 0 {
                        return Err(
                            CompilerError::new(
                                CompileErrorKind::Parse,
                                "(begin ...) requires at least 1 expression".to_string(),
                            ),
                        );
                    }
                    proof {
                        lemma_child(expr@, items@, n as int);
                    }
                    return self.infer_ty(&items[n]);
                }
                if str_eq(head, "let") || str_eq(head, "set") || str_eq(head, "set0") || str_eq(head, "for") {
                    return Ok(Ty::I32);
                }
                if str_eq(head, "return") {
                    return Ok(Ty::Never);
                }
                if str_eq(head, "if") {
                    if n != 3 {
                        return Err(
                            CompilerError::new(
                                CompileErrorKind::Parse,
                                "if form: (if <cond> <then> <else>)".to_string(),
                            ),
                        );
                    }
                    proof {
                        lemma_child(expr@, items@, 2);
                        lemma_child(expr@, items@, 3);
                    }
                    let t = self.infer_ty(&items[2])?;
                    let e = self.infer_ty(&items[3])?;
                    if t == Ty::Never {
                        return Ok(e);
                    }
                    if e == Ty::Never {
                        return Ok(t);
                    }
                    if t != e {
                        return Err(
                            CompilerError::new(
                                CompileErrorKind::Typing,
                                pair_msg("if branch type mismatch: then=", t, " else=", e),
                            ),
                        );
                    }
                    return Ok(t);
                }
                match builtin_result_ty(head) {
                    Some(t) => {
                        return Ok(t);
                    },
                    None => {},
                }
                match self.module.sig_of(head) {
                    Some((_, ret)) => {
                        return Ok(ret);
                    },
                    None => {},
                }
                if str_starts_with(head, "bytes.") || str_starts_with(head, "view.") || str_starts_with(head, "codec.")
                    || str_starts_with(head, "vec_u8.") {
                    let f = match required_feature_for_head(head) {
                        Some((_, f)) => f,
                        None => WasmFeatureV1::CoreFormsV1,
                    };
                    return Err(wasm_unsupported("builtin", head, f, ptr.as_str()));
                }
                let m = concat_str("unknown callee: ", debug_str(head).as_str());
                Err(CompilerError::new(CompileErrorKind::Typing, m))
            },
        }
    }
}


impl ExprEmitter {
    fn emit_drop_values(&mut self, ty: Ty) -> (r: Result<(), CompilerError>)
        requires
            old(self).wf(),
        ensures
            final(self).wf(),
            instrs_grow(old(self).f.body@, final(self).f.body@),
            final(self).env == old(self).env,
            final(self).module == old(self).module,
            final(self).f.locals == old(self).f.locals,
            final(self).f.params_flat_len == old(self).f.params_flat_len,
            match flat_len(ty) {
                Some(n) => r is Ok && final(self).f.body@ == old(self).f.body@ + drops(n),
                None => r is Err && final(self).f.body == old(self).f.body,
            },
    {
        if ty == Ty::Never {
            assert(old(self).f.body@ + drops(0) =~= old(self).f.body@);
            return Ok(());
        }
        let n = flat_len_for_ty(ty)?;
        let mut i: usize = 0;
        while i < n
            invariant
                i <= n,
                self.wf(),
                self.f.body@ == old(self).f.body@ + drops(i as nat),
                self.env == old(self).env,
                self.module == old(self).module,
                self.f.locals == old(self).f.locals,
                self.f.params_flat_len == old(self).f.params_flat_len,
            decreases n - i,
        {
            self.f.push(Instr::Drop);
            i = i + 1;
            assert(self.f.body@ =~= old(self).f.body@ + drops(i as nat));
        }
        proof {
            assert(old(self).f.body@ + drops(0) =~= old(self).f.body@);
        }
        Ok(())
    }

    fn store_stack_to_locals(&mut self, ty: Ty, locals: &Vec<u32>) -> (r: Result<(), CompilerError>)
        requires
            old(self).wf(),
        ensures
            final(self).wf(),
            instrs_grow(old(self).f.body@, final(self).f.body@),
            final(self).env == old(self).env,
            final(self).module == old(self).module,
            final(self).f.locals == old(self).f.locals,
            final(self).f.params_flat_len == old(self).f.params_flat_len,
            flat_len(ty) == Some(locals@.len() as nat) ==> r is Ok && final(self).f.body@ == old(self).f.body@
                + local_sets_rev(locals@),
            flat_len(ty) != Some(locals@.len() as nat) ==> r is Err && final(self).f.body == old(self).f.body,
    {
        let n = flat_len_for_ty(ty)?;
        if locals.len() != n {
            return Err(
                CompilerError::new(
                    CompileErrorKind::Internal,
                    "internal error: locals arity mismatch".to_string(),
                ),
            );
        }
        let mut i = locals.len();
        assert(old(self).f.body@ + Seq::<Instr>::empty() =~= old(self).f.body@);
        while i > 0
            invariant
                i <= locals.len(),
                self.wf(),
                self.f.body@ == old(self).f.body@ + Seq::new(
                    (locals@.len() - i) as nat,
                    |k: int| Instr::LocalSet(locals@[locals@.len() - 1 - k]),
                ),
                self.env == old(self).env,
                self.module == old(self).module,
                self.f.locals == old(self).f.locals,
                self.f.params_flat_len == old(self).f.params_flat_len,
            decreases i,
        {
            self.f.push(Instr::LocalSet(locals[i - 1]));
            i = i - 1;
            assert(self.f.body@ =~= old(self).f.body@ + Seq::new(
                (locals@.len() - i) as nat,
                |k: int| Instr::LocalSet(locals@[locals@.len() - 1 - k]),
            ));
        }
        assert(Seq::new(
            (locals@.len() - i) as nat,
            |k: int| Instr::LocalSet(locals@[locals@.len() - 1 - k]),
        ) =~= local_sets_rev(locals@));
        Ok(())
    }

    fn load_locals_to_stack(&mut self, locals: &Vec<u32>)
        requires
            old(self).wf(),
        ensures
            final(self).wf(),
            instrs_grow(old(self).f.body@, final(self).f.body@),
            final(self).env == old(self).env,
            final(self).module == old(self).module,
            final(self).f.locals == old(self).f.locals,
            final(self).f.params_flat_len == old(self).f.params_flat_len,
            final(self).f.body@ == old(self).f.body@ + local_gets(locals@),
    {
        let mut i: usize = 0;
        assert(old(self).f.body@ + local_gets(locals@.take(0)) =~= old(self).f.body@);
        while i < locals.len()
            invariant
                i <= locals.len(),
                self.wf(),
                self.f.body@ == old(self).f.body@ + local_gets(locals@.take(i as int)),
                self.env == old(self).env,
                self.module == old(self).module,
                self.f.locals == old(self).f.locals,
                self.f.params_flat_len == old(self).f.params_flat_len,
            decreases locals.len() - i,
        {
            self.f.push(Instr::LocalGet(locals[i]));
            i = i + 1;
            assert(self.f.body@ =~= old(self).f.body@ + local_gets(locals@.take(i as int)));
        }
        assert(locals@.take(i as int) =~= locals@);
    }

    /// Emits the code of `expr`, leaving its value on the stack, and gives
    /// its type.
    pub fn emit_expr(&mut self, expr: &Expr) -> (r: Result<Ty, CompilerError>)
        requires
            old(self).wf(),
        ensures
            final(self).wf(),
            instrs_grow(old(self).f.body@, final(self).f.body@),
            r is Ok ==> final(self).env@.len() == old(self).env@.len(),
            expr@ matches ExprV::Int(v, _) ==> r == Ok::<Ty, CompilerError>(Ty::I32)
                && final(self).f.body@ == old(self).f.body@.push(Instr::I32Const(v)),
            atom_ty(old(self).env@, expr@) matches Some(t) ==> r == Ok::<Ty, CompilerError>(t)
                && final(self).env == old(self).env && final(self).module == old(self).module
                && final(self).f.locals == old(self).f.locals
                && final(self).f.body@ == old(self).f.body@ + atom_code(old(self).env@, expr@),
            expr@ matches ExprV::List(items, _) ==> (items.len() == 3 ==> (expr_ident(items[0]) matches Some(h)
                ==> (binop_head(h) matches Some((op, _)) ==> (head_feature_on(old(self).module, h) && atom_is(
                old(self).env@,
                items[1],
                Ty::I32,
            ) && atom_is(old(self).env@, items[2], Ty::I32) ==> r == Ok::<Ty, CompilerError>(Ty::I32)
                && final(self).f.body@ == old(self).f.body@ + atom_code(old(self).env@, items[1]) + atom_code(
                old(self).env@,
                items[2],
            ) + seq![op])))),
            bytes_lit_form(old(self).module, expr@) ==> r == Ok::<Ty, CompilerError>(Ty::Bytes)
                && final(self).f.locals@.len() == old(self).f.locals@.len() + 2,
        decreases expr@, 3nat,
    {
        match expr {
            Expr::Int { value, .. } => {
                self.f.push(Instr::I32Const(*value));
                proof {
                    assert(self.f.body@ =~= old(self).f.body@ + seq![Instr::I32Const(*value)]);
                }
                Ok(Ty::I32)
            },
            Expr::Ident { name, .. } => match self.lookup(name.as_str()) {
                Some((ty, locals)) => {
                    self.load_locals_to_stack(&locals);
                    Ok(ty)
                },
                None => {
                    let m = concat_str("unknown identifier: ", debug_str(name.as_str()).as_str());
                    Err(CompilerError::new(CompileErrorKind::Typing, m))
                },
            },
            Expr::List { items, ptr } => {
                proof {
                    crate::ast::lemma_view_exprs(items@);
                    if bytes_lit_form(old(self).module, expr@) {
                        lemma_bytes_lit_head();
                    }
                }
                let head = split_head(items)?;
                self.require_head_feature(head, ptr.as_str())?;
                let h = head;
                let bin = binop_of_head(h);
                if bin.is_some() {
                    let (op, is_cmp) = bin.unwrap();
                    if is_cmp {
                        self.emit_i32_cmp(expr, items, op)
                    } else {
                        self.emit_i32_binop(expr, items, op)
                    }
                } else if str_eq(h, "begin") {
                    self.emit_begin(expr, items)
                } else if str_eq(h, "let") {
                    self.emit_let(expr, items)
                } else if str_eq(h, "set") {
                    self.emit_set(expr, items)
                } else if str_eq(h, "set0") {
                    let _ = self.emit_set(expr, items)?;
                    Ok(Ty::I32)
                } else if str_eq(h, "if") {
                    self.emit_if(expr, items)
                } else if str_eq(h, "for") {
                    self.emit_for(expr, items)
                } else if str_eq(h, "return") {
                    self.emit_return(expr, items)
                } else if str_eq(h, "i32.lit") {
                    self.emit_i32_lit(expr, items)
                } else if str_eq(h, "view.len") {
                    self.emit_view_len(expr, items)
                } else if str_eq(h, "view.get_u8") {
                    self.emit_view_get_u8(expr, items)
                } else if str_eq(h, "view.slice") {
                    self.emit_view_slice(expr, items)
                } else if str_eq(h, "view.to_bytes") {
                    self.emit_view_to_bytes(expr, items)
                } else if str_eq(h, "view.eq") {
                    self.emit_view_eq(expr, items)
                } else if str_eq(h, "bytes.view") {
                    self.emit_bytes_view(expr, items)
                } else if str_eq(h, "bytes.subview") {
                    self.emit_bytes_subview(expr, items)
                } else if str_eq(h, "bytes.len") {
                    self.emit_bytes_len(expr, items)
                } else if str_eq(h, "bytes.get_u8") {
                    self.emit_bytes_get_u8(expr, items)
                } else if str_eq(h, "bytes.set_u8") {
                    self.emit_bytes_set_u8(expr, items)
                } else if str_eq(h, "bytes.alloc") {
                    self.emit_bytes_alloc(expr, items)
                } else if str_eq(h, "bytes.concat") {
                    self.emit_bytes_concat(expr, items)
                } else if str_eq(h, "bytes.eq") {
                    self.emit_bytes_eq(expr, items)
                } else if str_eq(h, "bytes.cmp_range") {
                    self.emit_bytes_cmp_range(expr, items)
                } else if str_eq(h, "bytes.slice") {
                    self.emit_bytes_slice(expr, items)
                } else if str_eq(h, "bytes.lit") {
                    self.emit_bytes_lit(expr, items)
                } else if str_eq(h, "bytes.view_lit") {
                    self.emit_bytes_view_lit(expr, items)
                } else if str_eq(h, "codec.read_u32_le") {
                    self.emit_codec_read_u32_le(expr, items)
                } else if str_eq(h, "codec.write_u32_le") {
                    self.emit_codec_write_u32_le(expr, items)
                } else if str_eq(h, "vec_u8.with_capacity") {
                    self.emit_vec_u8_with_capacity(expr, items)
                } else if str_eq(h, "vec_u8.len") {
                    self.emit_vec_u8_len(expr, items)
                } else if str_eq(h, "vec_u8.get") {
                    self.emit_vec_u8_get(expr, items)
                } else if str_eq(h, "vec_u8.push") {
                    self.emit_vec_u8_push(expr, items)
                } else if str_eq(h, "vec_u8.reserve_exact") {
                    self.emit_vec_u8_reserve_exact(expr, items)
                } else if str_eq(h, "vec_u8.extend_bytes") {
                    self.emit_vec_u8_extend_bytes(expr, items)
                } else if str_eq(h, "vec_u8.extend_bytes_range") {
                    self.emit_vec_u8_extend_bytes_range(expr, items)
                } else if str_eq(h, "vec_u8.as_view") {
                    self.emit_vec_u8_as_view(expr, items)
                } else if str_eq(h, "vec_u8.into_bytes") {
                    self.emit_vec_u8_into_bytes(expr, items)
                } else if str_eq(h, "&&") {
                    self.emit_i32_logic_and(expr, items)
                } else if str_eq(h, "||") {
                    self.emit_i32_logic_or(expr, items)
                } else {
                    let is_builtin_ns = str_starts_with(h, "bytes.") || str_starts_with(h, "view.")
                        || str_starts_with(h, "codec.") || str_starts_with(h, "vec_u8.");
                    if is_builtin_ns && self.module.sig_of(h).is_none() {
                        let f = match required_feature_for_head(h) {
                            Some((_, f)) => f,
                            None => WasmFeatureV1::CoreFormsV1,
                        };
                        return Err(wasm_unsupported("builtin", h, f, ptr.as_str()));
                    }
                    self.emit_call(expr, items, h)
                }
            },
        }
    }

    fn emit_begin(&mut self, whole: &Expr, items: &Vec<Expr>) -> (r: Result<Ty, CompilerError>)
        requires
            old(self).wf(),
            whole@ matches ExprV::List(vs, _) && vs == view_exprs(items@),
            items@.len() >= 1,
        ensures
            final(self).wf(),
            instrs_grow(old(self).f.body@, final(self).f.body@),
            r is Ok ==> final(self).env@.len() == old(self).env@.len(),
            items@.len() == 1 ==> (r matches Err(e) && e.kind == CompileErrorKind::Parse && e.message@ == "(begin ...) requires at least 1 expression"@),
            items@.len() == 1 ==> *final(self) == *old(self),
            (items@.len() >= 2 && forall|i: int|
                1 <= i < items@.len() ==> (atom_ty(old(self).env@, #[trigger] items@[i]@) matches Some(t) && flat_len(
                    t,
                ) is Some)) ==> (atom_ty(old(self).env@, items@.last()@) matches Some(t) && r == Ok::<
                Ty,
                CompilerError,
            >(t) && final(self).env@ == old(self).env@),
        decreases whole@, 2nat,
    {
        let n = items.len() - 1;
        if n == 0 {
            return Err(
                CompilerError::new(
                    CompileErrorKind::Parse,
                    "(begin ...) requires at least 1 expression".to_string(),
                ),
            );
        }
        let ghost atoms = forall|i: int|
            1 <= i < items@.len() ==> (atom_ty(old(self).env@, #[trigger] items@[i]@) matches Some(t) && flat_len(
                t,
            ) is Some);
        self.push_scope();
        let ghost inner = self.env@;
        let mut i: usize = 1;
        while i < n
            invariant
                1 <= i <= n,
                n == items@.len() - 1,
                whole@ matches ExprV::List(vs, _) && vs == view_exprs(items@),
                self.wf(),
                instrs_grow(old(self).f.body@, self.f.body@),
                self.env@.len() == old(self).env@.len() + 1,
                inner.len() == old(self).env@.len() + 1,
                inner.drop_last() == old(self).env@,
                inner.last()@.len() == 0,
                atoms == (forall|i: int|
                    1 <= i < items@.len() ==> (atom_ty(old(self).env@, #[trigger] items@[i]@) matches Some(t)
                        && flat_len(t) is Some)),
                atoms ==> self.env@ == inner,
            decreases n - i,
        {
            proof {
                lemma_child(whole@, items@, i as int);
                lemma_atom_ty_scope(old(self).env@, inner, items@[i as int]@);
            }
            let ty = self.emit_expr(&items[i])?;
            self.emit_drop_values(ty)?;
            i = i + 1;
        }
        proof {
            lemma_child(whole@, items@, n as int);
            lemma_atom_ty_scope(old(self).env@, inner, items@[n as int]@);
        }
        let ty = self.emit_expr(&items[n])?;
        self.pop_scope();
        Ok(ty)
    }

    fn emit_let(&mut self, whole: &Expr, items: &Vec<Expr>) -> (r: Result<Ty, CompilerError>)
        requires
            old(self).wf(),
            whole@ matches ExprV::List(vs, _) && vs == view_exprs(items@),
            items@.len() >= 1,
        ensures
            final(self).wf(),
            instrs_grow(old(self).f.body@, final(self).f.body@),
            r is Ok ==> final(self).env@.len() == old(self).env@.len(),
            items@.len() != 3 ==> (r matches Err(e) && e.kind == CompileErrorKind::Parse && e.message@ == "let form: (let <name> <expr>)"@),
            items@.len() != 3 ==> *final(self) == *old(self),
            items@.len() == 3 ==> (expr_ident(items@[1]@) matches Some(n) ==> (atom_ty(old(self).env@, items@[2]@)
                matches Some(t) ==> (t == Ty::Never ==> r == Ok::<Ty, CompilerError>(Ty::Never)) && (t != Ty::Never
                && flat_len(t) is Some && scope_binding(old(self).env@.last()@, n) is None ==> r == Ok::<
                Ty,
                CompilerError,
            >(Ty::I32) && (env_binding(final(self).env@, n) matches Some(b) && b.ty == t)))),
        decreases whole@, 2nat,
    {
        if items.len() - 1 != 2 {
            return Err(CompilerError::new(CompileErrorKind::Parse, "let form: (let <name> <expr>)".to_string()));
        }
        let name = match items[1].as_ident() {
            Some(n) => n,
            None => {
                return Err(
                    CompilerError::new(CompileErrorKind::Parse, "let name must be an identifier".to_string()),
                );
            },
        };
        proof {
            lemma_child(whole@, items@, 2);
        }
        let ty = self.emit_expr(&items[2])?;
        if ty == Ty::Never {
            return Ok(Ty::Never);
        }
        let locals = self.f.new_locals_for_ty(ty)?;
        self.store_stack_to_locals(ty, &locals)?;
        let mut copy: Vec<u32> = Vec::new();
        let mut k: usize = 0;
        while k < locals.len()
            invariant
                k <= locals.len(),
            decreases locals.len() - k,
        {
            copy.push(locals[k]);
            k = k + 1;
        }
        self.bind(name.to_string(), Binding { ty, locals: copy })?;
        self.f.push(Instr::I32Const(0));
        Ok(Ty::I32)
    }

    fn emit_set(&mut self, whole: &Expr, items: &Vec<Expr>) -> (r: Result<Ty, CompilerError>)
        requires
            old(self).wf(),
            whole@ matches ExprV::List(vs, _) && vs == view_exprs(items@),
            items@.len() >= 1,
        ensures
            final(self).wf(),
            instrs_grow(old(self).f.body@, final(self).f.body@),
            r is Ok ==> final(self).env@.len() == old(self).env@.len(),
            items@.len() != 3 ==> (r matches Err(e) && e.kind == CompileErrorKind::Parse && e.message@ == "set form: (set <name> <expr>)"@),
            items@.len() != 3 ==> *final(self) == *old(self),
            items@.len() == 3 ==> (expr_ident(items@[1]@) matches Some(n) ==> (env_binding(old(self).env@, n)
                matches Some(b) ==> (atom_ty(old(self).env@, items@[2]@) == Some(Ty::Never) ==> r == Ok::<
                Ty,
                CompilerError,
            >(Ty::Never)) && (atom_ty(old(self).env@, items@[2]@) == Some(b.ty) && b.ty != Ty::Never && flat_len(b.ty)
                == Some(b.locals@.len() as nat) ==> r == Ok::<Ty, CompilerError>(Ty::I32) && final(self).env
                == old(self).env))),
        decreases whole@, 2nat,
    {
        if items.len() - 1 != 2 {
            return Err(CompilerError::new(CompileErrorKind::Parse, "set form: (set <name> <expr>)".to_string()));
        }
        let name = match items[1].as_ident() {
            Some(n) => n,
            None => {
                return Err(
                    CompilerError::new(CompileErrorKind::Parse, "set name must be an identifier".to_string()),
                );
            },
        };
        let (dst_ty, dst_locals) = match self.lookup(name) {
            Some(b) => b,
            None => {
                let m = concat_str("set of unknown variable: ", debug_str(name).as_str());
                return Err(CompilerError::new(CompileErrorKind::Typing, m));
            },
        };
        proof {
            lemma_child(whole@, items@, 2);
        }
        let ty = self.emit_expr(&items[2])?;
        if ty == Ty::Never {
            return Ok(Ty::Never);
        }
        if ty != dst_ty {
            let m1 = concat_str("set type mismatch: name=", debug_str(name).as_str());
            let m = pair_msg(concat_str(m1.as_str(), " got=").as_str(), ty, " want=", dst_ty);
            return Err(CompilerError::new(CompileErrorKind::Typing, m));
        }
        self.store_stack_to_locals(ty, &dst_locals)?;
        self.f.push(Instr::I32Const(0));
        Ok(Ty::I32)
    }

    fn emit_if(&mut self, whole: &Expr, items: &Vec<Expr>) -> (r: Result<Ty, CompilerError>)
        requires
            old(self).wf(),
            whole@ matches ExprV::List(vs, _) && vs == view_exprs(items@),
            items@.len() >= 1,
        ensures
            final(self).wf(),
            instrs_grow(old(self).f.body@, final(self).f.body@),
            r is Ok ==> final(self).env@.len() == old(self).env@.len(),
            items@.len() != 4 ==> (r matches Err(e) && e.kind == CompileErrorKind::Parse && e.message@ == "if form: (if <cond> <then> <else>)"@),
            items@.len() != 4 ==> *final(self) == *old(self),
            items@.len() == 4 && atom_is(old(self).env@, items@[1]@, Ty::I32) ==> (atom_ty(old(self).env@, items@[2]@)
                matches Some(t) ==> (t != Ty::Never && flat_len(t) is Some && atom_ty(old(self).env@, items@[3]@)
                == Some(t) ==> r == Ok::<Ty, CompilerError>(t) && final(self).env@ == old(self).env@)),
        decreases whole@, 2nat,
    {
        if items.len() - 1 != 3 {
            return Err(
                CompilerError::new(CompileErrorKind::Parse, "if form: (if <cond> <then> <else>)".to_string()),
            );
        }
        proof {
            lemma_child(whole@, items@, 1);
            lemma_child(whole@, items@, 2);
            lemma_child(whole@, items@, 3);
        }
        let cond_ty = self.emit_expr(&items[1])?;
        if cond_ty != Ty::I32 {
            return Err(CompilerError::new(CompileErrorKind::Typing, "if condition must be i32".to_string()));
        }
        let then_ty = self.infer_ty(&items[2])?;
        let else_ty = self.infer_ty(&items[3])?;
        let out_ty = if then_ty == Ty::Never {
            else_ty
        } else if else_ty == Ty::Never {
            then_ty
        } else if then_ty != else_ty {
            return Err(
                CompilerError::new(
                    CompileErrorKind::Typing,
                    pair_msg("if branch type mismatch: then=", then_ty, " else=", else_ty),
                ),
            );
        } else {
            then_ty
        };
        let out_locals = if out_ty == Ty::Never {
            Vec::new()
        } else {
            self.f.new_locals_for_ty(out_ty)?
        };
        self.f.push(Instr::If);
        self.push_scope();
        proof {
            lemma_atom_ty_scope(old(self).env@, self.env@, items@[2]@);
        }
        let t = self.emit_expr(&items[2])?;
        if t != Ty::Never {
            if t != out_ty {
                return Err(
                    CompilerError::new(
                        CompileErrorKind::Typing,
                        pair_msg("if then branch type mismatch: got=", t, " want=", out_ty),
                    ),
                );
            }
            self.store_stack_to_locals(t, &out_locals)?;
        }
        self.pop_scope();
        self.f.push(Instr::Else);
        self.push_scope();
        proof {
            lemma_atom_ty_scope(old(self).env@, self.env@, items@[3]@);
        }
        let e = self.emit_expr(&items[3])?;
        if e != Ty::Never {
            if e != out_ty {
                return Err(
                    CompilerError::new(
                        CompileErrorKind::Typing,
                        pair_msg("if else branch type mismatch: got=", e, " want=", out_ty),
                    ),
                );
            }
            self.store_stack_to_locals(e, &out_locals)?;
        }
        self.pop_scope();
        self.f.push(Instr::End);
        if out_ty == Ty::Never {
            return Ok(Ty::Never);
        }
        self.load_locals_to_stack(&out_locals);
        Ok(out_ty)
    }

    fn emit_for(&mut self, whole: &Expr, items: &Vec<Expr>) -> (r: Result<Ty, CompilerError>)
        requires
            old(self).wf(),
            whole@ matches ExprV::List(vs, _) && vs == view_exprs(items@),
            items@.len() >= 1,
        ensures
            final(self).wf(),
            instrs_grow(old(self).f.body@, final(self).f.body@),
            r is Ok ==> final(self).env@.len() == old(self).env@.len(),
            r matches Ok(t) ==> t == Ty::I32,
            items@.len() != 5 ==> (r matches Err(e) && e.kind == CompileErrorKind::Parse && e.message@ == "for form: (for <i> <start> <end> <body>)"@),
            items@.len() != 5 ==> *final(self) == *old(self),
            items@.len() == 5 ==> (expr_ident(items@[1]@) matches Some(v) ==> (env_binding(old(self).env@, v)
                matches Some(b) ==> (b.ty == Ty::I32 && b.locals@.len() == 1 && atom_is(old(self).env@, items@[2]@, Ty::I32)
                && atom_is(old(self).env@, items@[3]@, Ty::I32) && (atom_ty(old(self).env@, items@[4]@) matches Some(t)
                && flat_len(t) is Some) ==> r == Ok::<Ty, CompilerError>(Ty::I32) && final(self).env@
                == old(self).env@))),
        decreases whole@, 2nat,
    {
        if items.len() - 1 != 4 {
            return Err(
                CompilerError::new(
                    CompileErrorKind::Parse,
                    "for form: (for <i> <start> <end> <body>)".to_string(),
                ),
            );
        }
        let var_name = match items[1].as_ident() {
            Some(n) => n,
            None => {
                return Err(
                    CompilerError::new(CompileErrorKind::Parse, "for variable must be an identifier".to_string()),
                );
            },
        };
        let var_local = match self.lookup(var_name) {
            Some((ty, locals)) => {
                if ty != Ty::I32 || locals.len() != 1 {
                    let m = concat_str("for variable must be i32: ", debug_str(var_name).as_str());
                    return Err(CompilerError::new(CompileErrorKind::Typing, m));
                }
                locals[0]
            },
            None => {
                let l = self.f.new_i32_local();
                self.bind(var_name.to_string(), Binding { ty: Ty::I32, locals: vec![l] })?;
                l
            },
        };
        proof {
            lemma_child(whole@, items@, 2);
            lemma_child(whole@, items@, 3);
            lemma_child(whole@, items@, 4);
        }
        let start_ty = self.emit_expr(&items[2])?;
        if start_ty != Ty::I32 {
            return Err(CompilerError::new(CompileErrorKind::Typing, "for start must be i32".to_string()));
        }
        self.f.push(Instr::LocalSet(var_local));
        let end_local = self.f.new_i32_local();
        let end_ty = self.emit_expr(&items[3])?;
        if end_ty != Ty::I32 {
            return Err(CompilerError::new(CompileErrorKind::Typing, "for end must be i32".to_string()));
        }
        self.f.push(Instr::LocalSet(end_local));
        self.f.push(Instr::Block);
        self.f.push(Instr::Loop);
        self.f.push(Instr::LocalGet(var_local));
        self.f.push(Instr::LocalGet(end_local));
        self.f.push(Instr::I32GeU);
        self.f.push(Instr::BrIf(1));
        self.push_scope();
        proof {
            lemma_atom_ty_scope(old(self).env@, self.env@, items@[4]@);
        }
        let body_ty = self.emit_expr(&items[4])?;
        self.emit_drop_values(body_ty)?;
        self.pop_scope();
        self.f.push(Instr::LocalGet(var_local));
        self.f.push(Instr::I32Const(1));
        self.f.push(Instr::I32Add);
        self.f.push(Instr::LocalSet(var_local));
        self.f.push(Instr::Br(0));
        self.f.push(Instr::End);
        self.f.push(Instr::End);
        self.f.push(Instr::I32Const(0));
        Ok(Ty::I32)
    }

    fn emit_return(&mut self, whole: &Expr, items: &Vec<Expr>) -> (r: Result<Ty, CompilerError>)
        requires
            old(self).wf(),
            whole@ matches ExprV::List(vs, _) && vs == view_exprs(items@),
            items@.len() >= 1,
        ensures
            final(self).wf(),
            instrs_grow(old(self).f.body@, final(self).f.body@),
            r is Ok ==> final(self).env@.len() == old(self).env@.len(),
            r matches Ok(t) ==> t == Ty::Never,
            items@.len() != 2 ==> (r matches Err(e) && e.kind == CompileErrorKind::Parse && e.message@ == "return form: (return <expr>)"@),
            items@.len() != 2 ==> *final(self) == *old(self),
            (items@.len() == 2 && atom_ty(old(self).env@, items@[1]@) is Some) ==> r == Ok::<Ty, CompilerError>(Ty::Never),
        decreases whole@, 2nat,
    {
        if items.len() - 1 != 1 {
            return Err(CompilerError::new(CompileErrorKind::Parse, "return form: (return <expr>)".to_string()));
        }
        proof {
            lemma_child(whole@, items@, 1);
        }
        let ty = self.emit_expr(&items[1])?;
        if ty == Ty::Never {
            self.f.push(Instr::Unreachable);
            return Ok(Ty::Never);
        }
        self.f.push(Instr::Return);
        Ok(Ty::Never)
    }

    /// A call of a function of the module with `items[1..]` as arguments.
    fn emit_call(&mut self, whole: &Expr, items: &Vec<Expr>, callee: &str) -> (r: Result<Ty, CompilerError>)
        requires
            old(self).wf(),
            whole@ matches ExprV::List(vs, _) && vs == view_exprs(items@),
            items@.len() >= 1,
        ensures
            final(self).wf(),
            instrs_grow(old(self).f.body@, final(self).f.body@),
            r is Ok ==> final(self).env@.len() == old(self).env@.len(),
            last_sig(old(self).module.func_sigs@, callee@) is None ==> (r matches Err(e) && e.kind
                == CompileErrorKind::Typing),
            last_sig(old(self).module.func_sigs@, callee@) matches Some((ps, ret)) ==> (items@.len() != ps.len() + 1
                ==> (r matches Err(e) && e.kind == CompileErrorKind::Parse)) && (items@.len() == ps.len() + 1 && (
            forall|i: int|
                0 <= i < ps.len() ==> atom_ty(old(self).env@, items@[i + 1]@) == Some(#[trigger] ps[i]) || (ps[i]
                    == Ty::BytesView && atom_ty(old(self).env@, items@[i + 1]@) == Some(Ty::Bytes))) && last_index(
                old(self).module.func_indices@,
                callee@,
            ) is Some ==> r == Ok::<Ty, CompilerError>(ret) && final(self).env@ == old(self).env@),
        decreases whole@, 2nat,
    {
        let (want_params, ret) = match self.module.sig_of(callee) {
            Some(s) => s,
            None => {
                let m = concat_str("unknown callee: ", debug_str(callee).as_str());
                return Err(CompilerError::new(CompileErrorKind::Typing, m));
            },
        };
        let n = items.len() - 1;
        if n != want_params.len() {
            let m1 = concat_str("wrong arity for call: callee=", debug_str(callee).as_str());
            let m2 = concat_str(m1.as_str(), " want=");
            let m3 = concat_str(m2.as_str(), u64_to_dec(want_params.len() as u64).as_str());
            let m4 = concat_str(m3.as_str(), " got=");
            let m = concat_str(m4.as_str(), u64_to_dec(n as u64).as_str());
            return Err(CompilerError::new(CompileErrorKind::Parse, m));
        }
        let ghost ps = want_params@;
        let ghost good = forall|i: int|
            0 <= i < ps.len() ==> atom_ty(old(self).env@, items@[i + 1]@) == Some(#[trigger] ps[i]) || (ps[i]
                == Ty::BytesView && atom_ty(old(self).env@, items@[i + 1]@) == Some(Ty::Bytes));
        let mut i: usize = 0;
        while i < n
            invariant
                i <= n,
                n == items@.len() - 1,
                n == want_params@.len(),
                ps == want_params@,
                last_sig(old(self).module.func_sigs@, callee@) == Some((ps, ret)),
                whole@ matches ExprV::List(vs, _) && vs == view_exprs(items@),
                self.wf(),
                instrs_grow(old(self).f.body@, self.f.body@),
                self.env@.len() == old(self).env@.len(),
                good == (forall|i: int|
                    0 <= i < ps.len() ==> atom_ty(old(self).env@, items@[i + 1]@) == Some(#[trigger] ps[i]) || (
                    ps[i] == Ty::BytesView && atom_ty(old(self).env@, items@[i + 1]@) == Some(Ty::Bytes))),
                good ==> self.env == old(self).env && self.module == old(self).module,
            decreases n - i,
        {
            proof {
                lemma_child(whole@, items@, i + 1);
                if good {
                    assert(ps[i as int] == want_params@[i as int]);
                    assert(atom_ty(self.env@, items@[i + 1]@) is Some);
                }
            }
            let got = self.emit_expr(&items[i + 1])?;
            let want = want_params[i];
            if got != want && !(want == Ty::BytesView && got == Ty::Bytes) {
                let m1 = concat_str("call arg type mismatch: callee=", debug_str(callee).as_str());
                let m2 = concat_str(m1.as_str(), " arg_index=");
                let m3 = concat_str(m2.as_str(), u64_to_dec(i as u64).as_str());
                let m = pair_msg(concat_str(m3.as_str(), " got=").as_str(), got, " want=", want);
                return Err(CompilerError::new(CompileErrorKind::Typing, m));
            }
            i = i + 1;
        }
        match self.module.index_of(callee) {
            Some(idx) => {
                self.f.push(Instr::Call(idx));
                Ok(ret)
            },
            None => {
                let m = concat_str("internal error: missing function index for ", debug_str(callee).as_str());
                Err(CompilerError::new(CompileErrorKind::Internal, m))
            },
        }
    }
}

/// The index of the `k`-th local added after `n` locals, behind `p` parameter slots
/// (wrapping at 2^32).
pub open spec fn fresh_local(p: u32, n: nat) -> u32 {
    p.wrapping_add(n as u32)
}

/// `k` locals of type `i32`.
pub open spec fn i32_locals(k: nat) -> Seq<ValKind> {
    Seq::new(k, |_i: int| ValKind::I32)
}

/// The code that compares two byte ranges lexicographically, with its locals
/// numbered from `n` behind `p` parameter slots.
pub open spec fn range_compare_code(p: u32, n: nat) -> Seq<Instr> {
    Seq::empty()
        .push(Instr::LocalSet(fresh_local(p, n + 0)))
        .push(Instr::LocalSet(fresh_local(p, n + 1)))
        .push(Instr::LocalSet(fresh_local(p, n + 2)))
        .push(Instr::LocalSet(fresh_local(p, n + 3)))
        .push(Instr::LocalSet(fresh_local(p, n + 4)))
        .push(Instr::LocalSet(fresh_local(p, n + 5)))
        .push(Instr::LocalSet(fresh_local(p, n + 6)))
        .push(Instr::LocalSet(fresh_local(p, n + 7)))
        .push(Instr::LocalGet(fresh_local(p, n + 5)))
        .push(Instr::LocalGet(fresh_local(p, n + 4)))
        .push(Instr::I32Add)
        .push(Instr::LocalSet(fresh_local(p, n + 8)))
        .push(Instr::LocalGet(fresh_local(p, n + 8)))
        .push(Instr::LocalGet(fresh_local(p, n + 6)))
        .push(Instr::I32LeU)
        .push(Instr::If)
        .push(Instr::Else)
        .push(Instr::Unreachable)
        .push(Instr::End)
        .push(Instr::LocalGet(fresh_local(p, n + 1)))
        .push(Instr::LocalGet(fresh_local(p, n + 0)))
        .push(Instr::I32Add)
        .push(Instr::LocalSet(fresh_local(p, n + 9)))
        .push(Instr::LocalGet(fresh_local(p, n + 9)))
        .push(Instr::LocalGet(fresh_local(p, n + 2)))
        .push(Instr::I32LeU)
        .push(Instr::If)
        .push(Instr::Else)
        .push(Instr::Unreachable)
        .push(Instr::End)
        .push(Instr::LocalGet(fresh_local(p, n + 4)))
        .push(Instr::LocalGet(fresh_local(p, n + 0)))
        .push(Instr::I32LtU)
        .push(Instr::If)
        .push(Instr::LocalGet(fresh_local(p, n + 4)))
        .push(Instr::LocalSet(fresh_local(p, n + 10)))
        .push(Instr::Else)
        .push(Instr::LocalGet(fresh_local(p, n + 0)))
        .push(Instr::LocalSet(fresh_local(p, n + 10)))
        .push(Instr::End)
        .push(Instr::I32Const(0))
        .push(Instr::LocalSet(fresh_local(p, n + 11)))
        .push(Instr::Block)
        .push(Instr::Loop)
        .push(Instr::LocalGet(fresh_local(p, n + 11)))
        .push(Instr::LocalGet(fresh_local(p, n + 10)))
        .push(Instr::I32GeU)
        .push(Instr::BrIf(1))
        .push(Instr::LocalGet(fresh_local(p, n + 7)))
        .push(Instr::LocalGet(fresh_local(p, n + 5)))
        .push(Instr::I32Add)
        .push(Instr::LocalGet(fresh_local(p, n + 11)))
        .push(Instr::I32Add)
        .push(Instr::I32Load8U(MemArgV { offset: 0, align: 0 }))
        .push(Instr::LocalSet(fresh_local(p, n + 12)))
        .push(Instr::LocalGet(fresh_local(p, n + 3)))
        .push(Instr::LocalGet(fresh_local(p, n + 1)))
        .push(Instr::I32Add)
        .push(Instr::LocalGet(fresh_local(p, n + 11)))
        .push(Instr::I32Add)
        .push(Instr::I32Load8U(MemArgV { offset: 0, align: 0 }))
        .push(Instr::LocalSet(fresh_local(p, n + 13)))
        .push(Instr::LocalGet(fresh_local(p, n + 12)))
        .push(Instr::LocalGet(fresh_local(p, n + 13)))
        .push(Instr::I32LtU)
        .push(Instr::If)
        .push(Instr::I32Const(-1i32))
        .push(Instr::Return)
        .push(Instr::End)
        .push(Instr::LocalGet(fresh_local(p, n + 13)))
        .push(Instr::LocalGet(fresh_local(p, n + 12)))
        .push(Instr::I32LtU)
        .push(Instr::If)
        .push(Instr::I32Const(1))
        .push(Instr::Return)
        .push(Instr::End)
        .push(Instr::LocalGet(fresh_local(p, n + 11)))
        .push(Instr::I32Const(1))
        .push(Instr::I32Add)
        .push(Instr::LocalSet(fresh_local(p, n + 11)))
        .push(Instr::Br(0))
        .push(Instr::End)
        .push(Instr::End)
        .push(Instr::LocalGet(fresh_local(p, n + 4)))
        .push(Instr::LocalGet(fresh_local(p, n + 0)))
        .push(Instr::I32LtU)
        .push(Instr::If)
        .push(Instr::I32Const(-1i32))
        .push(Instr::Return)
        .push(Instr::End)
        .push(Instr::LocalGet(fresh_local(p, n + 4)))
        .push(Instr::LocalGet(fresh_local(p, n + 0)))
        .push(Instr::I32GtU)
        .push(Instr::If)
        .push(Instr::I32Const(1))
        .push(Instr::Return)
        .push(Instr::End)
        .push(Instr::I32Const(0))
}

/// The code that appends `src_len` bytes at `src_ptr` to the vector held in
/// `data`, `len` and `cap`, growing it through `alloc`, with its locals numbered
/// from `n` behind `p` parameter slots.
pub open spec fn extend_from_locals_code(
    p: u32,
    n: nat,
    data: u32,
    len: u32,
    cap: u32,
    src_ptr: u32,
    src_len: u32,
    alloc: u32,
) -> Seq<Instr> {
    seq![
        Instr::LocalGet(len),
        Instr::LocalGet(src_len),
        Instr::I32Add,
        Instr::LocalSet(fresh_local(p, n + 0)),
        Instr::LocalGet(fresh_local(p, n + 0)),
        Instr::LocalGet(cap),
        Instr::I32GtU,
        Instr::If,
        Instr::LocalGet(cap),
        Instr::LocalSet(fresh_local(p, n + 1)),
        Instr::LocalGet(fresh_local(p, n + 1)),
        Instr::I32Eqz,
        Instr::If,
        Instr::I32Const(1),
        Instr::LocalSet(fresh_local(p, n + 1)),
        Instr::End,
        Instr::Block,
        Instr::Loop,
        Instr::LocalGet(fresh_local(p, n + 1)),
        Instr::LocalGet(fresh_local(p, n + 0)),
        Instr::I32GeU,
        Instr::BrIf(1),
        Instr::LocalGet(fresh_local(p, n + 1)),
        Instr::I32Const(2),
        Instr::I32Mul,
        Instr::LocalSet(fresh_local(p, n + 1)),
        Instr::Br(0),
        Instr::End,
        Instr::End,
        Instr::LocalGet(fresh_local(p, n + 1)),
        Instr::I32Const(1),
        Instr::Call(alloc),
        Instr::LocalSet(fresh_local(p, n + 2)),
        Instr::LocalGet(fresh_local(p, n + 2)),
        Instr::LocalGet(data),
        Instr::LocalGet(len),
        Instr::MemoryCopy,
        Instr::LocalGet(fresh_local(p, n + 2)),
        Instr::LocalSet(data),
        Instr::LocalGet(fresh_local(p, n + 1)),
        Instr::LocalSet(cap),
        Instr::End,
        Instr::LocalGet(data),
        Instr::LocalGet(len),
        Instr::I32Add,
        Instr::LocalGet(src_ptr),
        Instr::LocalGet(src_len),
        Instr::MemoryCopy,
        Instr::LocalGet(fresh_local(p, n + 0)),
        Instr::LocalSet(len),
        Instr::LocalGet(data),
        Instr::LocalGet(len),
        Instr::LocalGet(cap),
    ]
}

/// Appends the loop that compares two byte ranges lexicographically; the six
/// operands (view, offset, length twice) are on the stack, and the result is
/// -1, 0 or 1.
#[verifier::spinoff_prover]
#[verifier::rlimit(100)]
fn emit_cmp_range_code(f: &mut FuncCode)
    ensures
        instrs_grow(old(f).body@, final(f).body@),
        final(f).body@ == old(f).body@ + range_compare_code(old(f).params_flat_len, old(f).locals@.len()),
        final(f).locals@ == old(f).locals@ + i32_locals(14),
        final(f).params_flat_len == old(f).params_flat_len,
{
    let mut code: Vec<Instr> = Vec::new();
    let b_len = f.new_i32_local();
    let b_off = f.new_i32_local();
    let b_view_len = f.new_i32_local();
    let b_ptr = f.new_i32_local();
    let a_len = f.new_i32_local();
    let a_off = f.new_i32_local();
    let a_view_len = f.new_i32_local();
    let a_ptr = f.new_i32_local();

    code.push(Instr::LocalSet(b_len));
    code.push(Instr::LocalSet(b_off));
    code.push(Instr::LocalSet(b_view_len));
    code.push(Instr::LocalSet(b_ptr));
    code.push(Instr::LocalSet(a_len));
    code.push(Instr::LocalSet(a_off));
    code.push(Instr::LocalSet(a_view_len));
    code.push(Instr::LocalSet(a_ptr));

    // bounds: (a_off + a_len) <= a_view_len and (b_off + b_len) <= b_view_len
    let a_end = f.new_i32_local();
    code.push(Instr::LocalGet(a_off));
    code.push(Instr::LocalGet(a_len));
    code.push(Instr::I32Add);
    code.push(Instr::LocalSet(a_end));

    code.push(Instr::LocalGet(a_end));
    code.push(Instr::LocalGet(a_view_len));
    code.push(Instr::I32LeU);
    code.push(Instr::If);
    code.push(Instr::Else);
    code.push(Instr::Unreachable);
    code.push(Instr::End);

    let b_end = f.new_i32_local();
    code.push(Instr::LocalGet(b_off));
    code.push(Instr::LocalGet(b_len));
    code.push(Instr::I32Add);
    code.push(Instr::LocalSet(b_end));

    code.push(Instr::LocalGet(b_end));
    code.push(Instr::LocalGet(b_view_len));
    code.push(Instr::I32LeU);
    code.push(Instr::If);
    code.push(Instr::Else);
    code.push(Instr::Unreachable);
    code.push(Instr::End);

    // min = min(a_len, b_len)
    let min = f.new_i32_local();
    code.push(Instr::LocalGet(a_len));
    code.push(Instr::LocalGet(b_len));
    code.push(Instr::I32LtU);
    code.push(Instr::If);
    code.push(Instr::LocalGet(a_len));
    code.push(Instr::LocalSet(min));
    code.push(Instr::Else);
    code.push(Instr::LocalGet(b_len));
    code.push(Instr::LocalSet(min));
    code.push(Instr::End);

    let i = f.new_i32_local();
    code.push(Instr::I32Const(0));
    code.push(Instr::LocalSet(i));

    code.push(Instr::Block);
    code.push(Instr::Loop);
    code.push(Instr::LocalGet(i));
    code.push(Instr::LocalGet(min));
    code.push(Instr::I32GeU);
    code.push(Instr::BrIf(1));

    // a byte
    code.push(Instr::LocalGet(a_ptr));
    code.push(Instr::LocalGet(a_off));
    code.push(Instr::I32Add);
    code.push(Instr::LocalGet(i));
    code.push(Instr::I32Add);
    code.push(Instr::I32Load8U(MemArgV { offset: 0, align: 0 }));
    let ac = f.new_i32_local();
    code.push(Instr::LocalSet(ac));

    // b byte
    code.push(Instr::LocalGet(b_ptr));
    code.push(Instr::LocalGet(b_off));
    code.push(Instr::I32Add);
    code.push(Instr::LocalGet(i));
    code.push(Instr::I32Add);
    code.push(Instr::I32Load8U(MemArgV { offset: 0, align: 0 }));
    let bc = f.new_i32_local();
    code.push(Instr::LocalSet(bc));

    // if ac < bc => return -1
    code.push(Instr::LocalGet(ac));
    code.push(Instr::LocalGet(bc));
    code.push(Instr::I32LtU);
    code.push(Instr::If);
    code.push(Instr::I32Const(-1));
    code.push(Instr::Return);
    code.push(Instr::End);

    // if bc < ac => return 1
    code.push(Instr::LocalGet(bc));
    code.push(Instr::LocalGet(ac));
    code.push(Instr::I32LtU);
    code.push(Instr::If);
    code.push(Instr::I32Const(1));
    code.push(Instr::Return);
    code.push(Instr::End);

    // i += 1
    code.push(Instr::LocalGet(i));
    code.push(Instr::I32Const(1));
    code.push(Instr::I32Add);
    code.push(Instr::LocalSet(i));

    code.push(Instr::Br(0));
    code.push(Instr::End); // loop
    code.push(Instr::End); // block

    // after compare: if a_len < b_len => -1; if a_len > b_len => 1 else 0
    code.push(Instr::LocalGet(a_len));
    code.push(Instr::LocalGet(b_len));
    code.push(Instr::I32LtU);
    code.push(Instr::If);
    code.push(Instr::I32Const(-1));
    code.push(Instr::Return);
    code.push(Instr::End);

    code.push(Instr::LocalGet(a_len));
    code.push(Instr::LocalGet(b_len));
    code.push(Instr::I32GtU);
    code.push(Instr::If);
    code.push(Instr::I32Const(1));
    code.push(Instr::Return);
    code.push(Instr::End);

    code.push(Instr::I32Const(0));
    proof {
        assert(code@ == range_compare_code(old(f).params_flat_len, old(f).locals@.len()));
    }
    f.push_all(&mut code);
    proof {
        assert(f.locals@ =~= old(f).locals@ + i32_locals(14));
    }
}

impl ExprEmitter {
    fn emit_i32_lit(&mut self, whole: &Expr, items: &Vec<Expr>) -> (r: Result<Ty, CompilerError>)
        requires
            old(self).wf(),
            whole@ matches ExprV::List(vs, _) && vs == view_exprs(items@),
            items@.len() >= 1,
        ensures
            final(self).wf(),
            instrs_grow(old(self).f.body@, final(self).f.body@),
            r is Ok ==> final(self).env@.len() == old(self).env@.len(),
            r matches Ok(t) ==> t == Ty::I32,
            items@.len() != 2 ==> (r matches Err(e) && e.kind == CompileErrorKind::Parse && e.message@ == "i32.lit expects 1 arg"@),
            items@.len() != 2 ==> *final(self) == *old(self),
            (items@.len() == 2 && atom_is(old(self).env@, items@[1]@, Ty::I32)) ==> r == Ok::<Ty, CompilerError>(Ty::I32),
        decreases whole@, 2nat,
    {
        if (items.len() - 1) != 1 {
            return Err(CompilerError::new(
                CompileErrorKind::Parse,
                "i32.lit expects 1 arg".to_string(),
            ));
        }
        proof {
            lemma_child(whole@, items@, 1);
        }
        let ty = self.emit_expr(&items[1])?;
        if ty != Ty::I32 {
            return Err(CompilerError::new(
                CompileErrorKind::Typing,
                "i32.lit expects i32".to_string(),
            ));
        }
        Ok(Ty::I32)
    }

    fn emit_view_len(&mut self, whole: &Expr, items: &Vec<Expr>) -> (r: Result<Ty, CompilerError>)
        requires
            old(self).wf(),
            whole@ matches ExprV::List(vs, _) && vs == view_exprs(items@),
            items@.len() >= 1,
        ensures
            final(self).wf(),
            instrs_grow(old(self).f.body@, final(self).f.body@),
            r is Ok ==> final(self).env@.len() == old(self).env@.len(),
            r matches Ok(t) ==> t == Ty::I32,
            items@.len() != 2 ==> (r matches Err(e) && e.kind == CompileErrorKind::Parse && e.message@ == "view.len expects 1 arg"@),
            items@.len() != 2 ==> *final(self) == *old(self),
            (items@.len() == 2 && atom_is_byteish(old(self).env@, items@[1]@)) ==> r == Ok::<Ty, CompilerError>(Ty::I32),
        decreases whole@, 1nat,
    {
        if (items.len() - 1) != 1 {
            return Err(CompilerError::new(
                CompileErrorKind::Parse,
                "view.len expects 1 arg".to_string(),
            ));
        }
        proof {
            lemma_child(whole@, items@, 1);
        }
        let v_ty = self.emit_expr(&items[1])?;
        if v_ty != Ty::BytesView && v_ty != Ty::Bytes {
            return Err(CompilerError::new(
                CompileErrorKind::Typing,
                got1("view.len expects bytes_view (got ", v_ty),
            ));
        }
        let len_local = self.f.new_i32_local();
        self.f.push(Instr::LocalSet(len_local)); // len
        self.f.push(Instr::Drop); // ptr
        self.f.push(Instr::LocalGet(len_local));
        Ok(Ty::I32)
    }

    fn emit_view_get_u8(&mut self, whole: &Expr, items: &Vec<Expr>) -> (r: Result<Ty, CompilerError>)
        requires
            old(self).wf(),
            whole@ matches ExprV::List(vs, _) && vs == view_exprs(items@),
            items@.len() >= 1,
        ensures
            final(self).wf(),
            instrs_grow(old(self).f.body@, final(self).f.body@),
            r is Ok ==> final(self).env@.len() == old(self).env@.len(),
            r matches Ok(t) ==> t == Ty::I32,
            items@.len() != 3 ==> (r matches Err(e) && e.kind == CompileErrorKind::Parse && e.message@ == "view.get_u8 expects 2 args"@),
            items@.len() != 3 ==> *final(self) == *old(self),
            (items@.len() == 3 && atom_is_byteish(old(self).env@, items@[1]@) && atom_is(old(self).env@, items@[2]@, Ty::I32)) ==> r == Ok::<Ty, CompilerError>(Ty::I32),
        decreases whole@, 1nat,
    {
        if (items.len() - 1) != 2 {
            return Err(CompilerError::new(
                CompileErrorKind::Parse,
                "view.get_u8 expects 2 args".to_string(),
            ));
        }
        proof {
            lemma_child(whole@, items@, 1);
        }
        let v_ty = self.emit_expr(&items[1])?;
        if v_ty != Ty::BytesView && v_ty != Ty::Bytes {
            return Err(CompilerError::new(
                CompileErrorKind::Typing,
                got1("view.get_u8 expects bytes_view (got ", v_ty),
            ));
        }
        proof {
            lemma_child(whole@, items@, 2);
        }
        let idx_ty = self.emit_expr(&items[2])?;
        if idx_ty != Ty::I32 {
            return Err(CompilerError::new(
                CompileErrorKind::Typing,
                "view.get_u8 index must be i32".to_string(),
            ));
        }

        let idx = self.f.new_i32_local();
        let len = self.f.new_i32_local();
        let ptr = self.f.new_i32_local();
        self.f.push(Instr::LocalSet(idx));
        self.f.push(Instr::LocalSet(len));
        self.f.push(Instr::LocalSet(ptr));

        // trap if idx >= len (unsigned)
        self.f.push(Instr::LocalGet(idx));
        self.f.push(Instr::LocalGet(len));
        self.f.push(Instr::I32LtU);
        self.f.push(Instr::If);
        self.f.push(Instr::Else);
        self.f.push(Instr::Unreachable);
        self.f.push(Instr::End);

        self.f.push(Instr::LocalGet(ptr));
        self.f.push(Instr::LocalGet(idx));
        self.f.push(Instr::I32Add);
        self.f.push(Instr::I32Load8U(MemArgV { offset: 0, align: 0 }));
        Ok(Ty::I32)
    }

    fn emit_view_slice(&mut self, whole: &Expr, items: &Vec<Expr>) -> (r: Result<Ty, CompilerError>)
        requires
            old(self).wf(),
            whole@ matches ExprV::List(vs, _) && vs == view_exprs(items@),
            items@.len() >= 1,
        ensures
            final(self).wf(),
            instrs_grow(old(self).f.body@, final(self).f.body@),
            r is Ok ==> final(self).env@.len() == old(self).env@.len(),
            r matches Ok(t) ==> t == Ty::BytesView,
            items@.len() != 4 ==> (r matches Err(e) && e.kind == CompileErrorKind::Parse && e.message@ == "view.slice expects 3 args"@),
            items@.len() != 4 ==> *final(self) == *old(self),
            (items@.len() == 4 && atom_is_byteish(old(self).env@, items@[1]@) && atom_is(old(self).env@, items@[2]@, Ty::I32) && atom_is(old(self).env@, items@[3]@, Ty::I32)) ==> r == Ok::<Ty, CompilerError>(Ty::BytesView),
        decreases whole@, 2nat,
    {
        if (items.len() - 1) != 3 {
            return Err(CompilerError::new(
                CompileErrorKind::Parse,
                "view.slice expects 3 args".to_string(),
            ));
        }
        proof {
            lemma_child(whole@, items@, 1);
        }
        let v_ty = self.emit_expr(&items[1])?;
        if v_ty != Ty::BytesView && v_ty != Ty::Bytes {
            return Err(CompilerError::new(
                CompileErrorKind::Typing,
                got1("view.slice expects bytes_view (got ", v_ty),
            ));
        }
        proof {
            lemma_child(whole@, items@, 2);
        }
        let start_ty = self.emit_expr(&items[2])?;
        proof {
            lemma_child(whole@, items@, 3);
        }
        let len_ty = self.emit_expr(&items[3])?;
        if start_ty != Ty::I32 || len_ty != Ty::I32 {
            return Err(CompilerError::new(
                CompileErrorKind::Typing,
                "view.slice expects (bytes_view, i32, i32)".to_string(),
            ));
        }

        let slice_len = self.f.new_i32_local();
        let start = self.f.new_i32_local();
        let view_len = self.f.new_i32_local();
        let view_ptr = self.f.new_i32_local();
        self.f.push(Instr::LocalSet(slice_len));
        self.f.push(Instr::LocalSet(start));
        self.f.push(Instr::LocalSet(view_len));
        self.f.push(Instr::LocalSet(view_ptr));

        // end = start + slice_len; trap if end > view_len (unsigned)
        let end = self.f.new_i32_local();
        self.f.push(Instr::LocalGet(start));
        self.f.push(Instr::LocalGet(slice_len));
        self.f.push(Instr::I32Add);
        self.f.push(Instr::LocalSet(end));

        self.f.push(Instr::LocalGet(end));
        self.f.push(Instr::LocalGet(view_len));
        self.f.push(Instr::I32LeU);
        self.f.push(Instr::If);
        self.f.push(Instr::Else);
        self.f.push(Instr::Unreachable);
        self.f.push(Instr::End);

        // ptr = view_ptr + start
        self.f.push(Instr::LocalGet(view_ptr));
        self.f.push(Instr::LocalGet(start));
        self.f.push(Instr::I32Add);
        self.f.push(Instr::LocalGet(slice_len));
        Ok(Ty::BytesView)
    }

    fn emit_view_to_bytes(&mut self, whole: &Expr, items: &Vec<Expr>) -> (r: Result<Ty, CompilerError>)
        requires
            old(self).wf(),
            whole@ matches ExprV::List(vs, _) && vs == view_exprs(items@),
            items@.len() >= 1,
        ensures
            final(self).wf(),
            instrs_grow(old(self).f.body@, final(self).f.body@),
            r is Ok ==> final(self).env@.len() == old(self).env@.len(),
            r matches Ok(t) ==> t == Ty::Bytes,
            items@.len() != 2 ==> (r matches Err(e) && e.kind == CompileErrorKind::Parse && e.message@ == "view.to_bytes expects 1 arg"@),
            items@.len() != 2 ==> *final(self) == *old(self),
            (items@.len() == 2 && atom_is(old(self).env@, items@[1]@, Ty::BytesView)) ==> r == Ok::<Ty, CompilerError>(Ty::Bytes),
        decreases whole@, 2nat,
    {
        if (items.len() - 1) != 1 {
            return Err(CompilerError::new(
                CompileErrorKind::Parse,
                "view.to_bytes expects 1 arg".to_string(),
            ));
        }
        proof {
            lemma_child(whole@, items@, 1);
        }
        let v_ty = self.emit_expr(&items[1])?;
        if v_ty != Ty::BytesView {
            return Err(CompilerError::new(
                CompileErrorKind::Typing,
                "view.to_bytes expects bytes_view".to_string(),
            ));
        }

        let len = self.f.new_i32_local();
        let src = self.f.new_i32_local();
        self.f.push(Instr::LocalSet(len));
        self.f.push(Instr::LocalSet(src));

        let out_ptr = self.f.new_i32_local();

        // if len==0 -> empty bytes
        self.f.push(Instr::LocalGet(len));
        self.f.push(Instr::I32Eqz);
        self.f.push(Instr::If);
        self.f.push(Instr::GlobalGet(self.module.heap_base_global));
        self.f.push(Instr::LocalSet(out_ptr));
        self.f.push(Instr::Else);

        // alloc(len, 1)
        self.f.push(Instr::LocalGet(len));
        self.f.push(Instr::I32Const(1));
        self.f.push(Instr::Call(self.module.rt_alloc_fn));
        self.f.push(Instr::LocalSet(out_ptr));

        // memory.copy(out_ptr, src, len)
        self.f.push(Instr::LocalGet(out_ptr));
        self.f.push(Instr::LocalGet(src));
        self.f.push(Instr::LocalGet(len));
        self.f.push(Instr::MemoryCopy);

        self.f.push(Instr::End);

        self.f.push(Instr::LocalGet(out_ptr));
        self.f.push(Instr::LocalGet(len));
        Ok(Ty::Bytes)
    }

    fn emit_view_eq(&mut self, whole: &Expr, items: &Vec<Expr>) -> (r: Result<Ty, CompilerError>)
        requires
            old(self).wf(),
            whole@ matches ExprV::List(vs, _) && vs == view_exprs(items@),
            items@.len() >= 1,
        ensures
            final(self).wf(),
            instrs_grow(old(self).f.body@, final(self).f.body@),
            r is Ok ==> final(self).env@.len() == old(self).env@.len(),
            r matches Ok(t) ==> t == Ty::I32,
            items@.len() != 3 ==> (r matches Err(e) && e.kind == CompileErrorKind::Parse && e.message@ == "view.eq expects 2 args"@),
            items@.len() != 3 ==> *final(self) == *old(self),
            (items@.len() == 3 && atom_is_byteish(old(self).env@, items@[1]@) && atom_is_byteish(old(self).env@, items@[2]@)) ==> r == Ok::<Ty, CompilerError>(Ty::I32),
        decreases whole@, 1nat,
    {
        if (items.len() - 1) != 2 {
            return Err(CompilerError::new(
                CompileErrorKind::Parse,
                "view.eq expects 2 args".to_string(),
            ));
        }
        proof {
            lemma_child(whole@, items@, 1);
        }
        let a_ty = self.emit_expr(&items[1])?;
        proof {
            lemma_child(whole@, items@, 2);
        }
        let b_ty = self.emit_expr(&items[2])?;
        if !(a_ty == Ty::BytesView || a_ty == Ty::Bytes) || !(b_ty == Ty::BytesView || b_ty == Ty::Bytes)
        {
            return Err(CompilerError::new(
                CompileErrorKind::Typing,
                got2("view.eq expects (bytes_view, bytes_view) (got ", a_ty, b_ty),
            ));
        }

        let b_len = self.f.new_i32_local();
        let b_ptr = self.f.new_i32_local();
        let a_len = self.f.new_i32_local();
        let a_ptr = self.f.new_i32_local();
        self.f.push(Instr::LocalSet(b_len));
        self.f.push(Instr::LocalSet(b_ptr));
        self.f.push(Instr::LocalSet(a_len));
        self.f.push(Instr::LocalSet(a_ptr));

        // if a_len != b_len -> return 0
        self.f.push(Instr::LocalGet(a_len));
        self.f.push(Instr::LocalGet(b_len));
        self.f.push(Instr::I32Ne);
        self.f.push(Instr::If);
        self.f.push(Instr::I32Const(0));
        self.f.push(Instr::Return);
        self.f.push(Instr::End);

        // if a_len == 0 -> return 1
        self.f.push(Instr::LocalGet(a_len));
        self.f.push(Instr::I32Eqz);
        self.f.push(Instr::If);
        self.f.push(Instr::I32Const(1));
        self.f.push(Instr::Return);
        self.f.push(Instr::End);

        let i = self.f.new_i32_local();
        self.f.push(Instr::I32Const(0));
        self.f.push(Instr::LocalSet(i));

        self.f.push(Instr::Block);
        self.f.push(Instr::Loop);

        // if i >= a_len break
        self.f.push(Instr::LocalGet(i));
        self.f.push(Instr::LocalGet(a_len));
        self.f.push(Instr::I32GeU);
        self.f.push(Instr::BrIf(1));

        // load a[i]
        self.f.push(Instr::LocalGet(a_ptr));
        self.f.push(Instr::LocalGet(i));
        self.f.push(Instr::I32Add);
        self.f.push(Instr::I32Load8U(MemArgV { offset: 0, align: 0 }));

        // load b[i]
        self.f.push(Instr::LocalGet(b_ptr));
        self.f.push(Instr::LocalGet(i));
        self.f.push(Instr::I32Add);
        self.f.push(Instr::I32Load8U(MemArgV { offset: 0, align: 0 }));

        self.f.push(Instr::I32Ne);
        self.f.push(Instr::If);
        self.f.push(Instr::I32Const(0));
        self.f.push(Instr::Return);
        self.f.push(Instr::End);

        // i += 1
        self.f.push(Instr::LocalGet(i));
        self.f.push(Instr::I32Const(1));
        self.f.push(Instr::I32Add);
        self.f.push(Instr::LocalSet(i));

        self.f.push(Instr::Br(0));
        self.f.push(Instr::End); // loop
        self.f.push(Instr::End); // block

        self.f.push(Instr::I32Const(1));
        Ok(Ty::I32)
    }

    fn emit_bytes_view(&mut self, whole: &Expr, items: &Vec<Expr>) -> (r: Result<Ty, CompilerError>)
        requires
            old(self).wf(),
            whole@ matches ExprV::List(vs, _) && vs == view_exprs(items@),
            items@.len() >= 1,
        ensures
            final(self).wf(),
            instrs_grow(old(self).f.body@, final(self).f.body@),
            r is Ok ==> final(self).env@.len() == old(self).env@.len(),
            r matches Ok(t) ==> t == Ty::BytesView,
            items@.len() != 2 ==> (r matches Err(e) && e.kind == CompileErrorKind::Parse && e.message@ == "bytes.view expects 1 arg"@),
            items@.len() != 2 ==> *final(self) == *old(self),
            (items@.len() == 2 && atom_is(old(self).env@, items@[1]@, Ty::Bytes)) ==> r == Ok::<Ty, CompilerError>(Ty::BytesView),
        decreases whole@, 2nat,
    {
        if (items.len() - 1) != 1 {
            return Err(CompilerError::new(
                CompileErrorKind::Parse,
                "bytes.view expects 1 arg".to_string(),
            ));
        }
        proof {
            lemma_child(whole@, items@, 1);
        }
        let b_ty = self.emit_expr(&items[1])?;
        if b_ty != Ty::Bytes {
            return Err(CompilerError::new(
                CompileErrorKind::Typing,
                "bytes.view expects bytes".to_string(),
            ));
        }
        Ok(Ty::BytesView)
    }

    fn emit_bytes_subview(&mut self, whole: &Expr, items: &Vec<Expr>) -> (r: Result<Ty, CompilerError>)
        requires
            old(self).wf(),
            whole@ matches ExprV::List(vs, _) && vs == view_exprs(items@),
            items@.len() >= 1,
        ensures
            final(self).wf(),
            instrs_grow(old(self).f.body@, final(self).f.body@),
            r is Ok ==> final(self).env@.len() == old(self).env@.len(),
            r matches Ok(t) ==> t == Ty::BytesView,
            items@.len() != 4 ==> (r matches Err(e) && e.kind == CompileErrorKind::Parse && e.message@ == "bytes.subview expects 3 args"@),
            items@.len() != 4 ==> *final(self) == *old(self),
            (items@.len() == 4 && atom_is(old(self).env@, items@[1]@, Ty::Bytes) && atom_is(old(self).env@, items@[2]@, Ty::I32) && atom_is(old(self).env@, items@[3]@, Ty::I32)) ==> r == Ok::<Ty, CompilerError>(Ty::BytesView),
        decreases whole@, 2nat,
    {
        if (items.len() - 1) != 3 {
            return Err(CompilerError::new(
                CompileErrorKind::Parse,
                "bytes.subview expects 3 args".to_string(),
            ));
        }
        proof {
            lemma_child(whole@, items@, 1);
        }
        let b_ty = self.emit_expr(&items[1])?;
        if b_ty != Ty::Bytes {
            return Err(CompilerError::new(
                CompileErrorKind::Typing,
                "bytes.subview expects bytes".to_string(),
            ));
        }
        proof {
            lemma_child(whole@, items@, 2);
        }
        let start_ty = self.emit_expr(&items[2])?;
        proof {
            lemma_child(whole@, items@, 3);
        }
        let len_ty = self.emit_expr(&items[3])?;
        if start_ty != Ty::I32 || len_ty != Ty::I32 {
            return Err(CompilerError::new(
                CompileErrorKind::Typing,
                "bytes.subview expects (bytes, i32, i32)".to_string(),
            ));
        }

        let slice_len = self.f.new_i32_local();
        let start = self.f.new_i32_local();
        let bytes_len = self.f.new_i32_local();
        let bytes_ptr = self.f.new_i32_local();
        self.f.push(Instr::LocalSet(slice_len));
        self.f.push(Instr::LocalSet(start));
        self.f.push(Instr::LocalSet(bytes_len));
        self.f.push(Instr::LocalSet(bytes_ptr));

        // end = start + slice_len; trap if end > bytes_len (unsigned)
        let end = self.f.new_i32_local();
        self.f.push(Instr::LocalGet(start));
        self.f.push(Instr::LocalGet(slice_len));
        self.f.push(Instr::I32Add);
        self.f.push(Instr::LocalSet(end));

        self.f.push(Instr::LocalGet(end));
        self.f.push(Instr::LocalGet(bytes_len));
        self.f.push(Instr::I32LeU);
        self.f.push(Instr::If);
        self.f.push(Instr::Else);
        self.f.push(Instr::Unreachable);
        self.f.push(Instr::End);

        // ptr = bytes_ptr + start
        self.f.push(Instr::LocalGet(bytes_ptr));
        self.f.push(Instr::LocalGet(start));
        self.f.push(Instr::I32Add);
        self.f.push(Instr::LocalGet(slice_len));
        Ok(Ty::BytesView)
    }

    fn emit_bytes_len(&mut self, whole: &Expr, items: &Vec<Expr>) -> (r: Result<Ty, CompilerError>)
        requires
            old(self).wf(),
            whole@ matches ExprV::List(vs, _) && vs == view_exprs(items@),
            items@.len() >= 1,
        ensures
            final(self).wf(),
            instrs_grow(old(self).f.body@, final(self).f.body@),
            r is Ok ==> final(self).env@.len() == old(self).env@.len(),
            (items@.len() == 2 && atom_is_byteish(old(self).env@, items@[1]@)) ==> r == Ok::<Ty, CompilerError>(Ty::I32),
        decreases whole@, 2nat,
    {
        // bytes.len is defined over bytes_view.
        self.emit_view_len(whole, items)
    }

    fn emit_bytes_get_u8(&mut self, whole: &Expr, items: &Vec<Expr>) -> (r: Result<Ty, CompilerError>)
        requires
            old(self).wf(),
            whole@ matches ExprV::List(vs, _) && vs == view_exprs(items@),
            items@.len() >= 1,
        ensures
            final(self).wf(),
            instrs_grow(old(self).f.body@, final(self).f.body@),
            r is Ok ==> final(self).env@.len() == old(self).env@.len(),
            (items@.len() == 3 && atom_is_byteish(old(self).env@, items@[1]@) && atom_is(old(self).env@, items@[2]@, Ty::I32)) ==> r == Ok::<Ty, CompilerError>(Ty::I32),
        decreases whole@, 2nat,
    {
        // bytes.get_u8 is defined over bytes_view.
        self.emit_view_get_u8(whole, items)
    }

    fn emit_bytes_set_u8(&mut self, whole: &Expr, items: &Vec<Expr>) -> (r: Result<Ty, CompilerError>)
        requires
            old(self).wf(),
            whole@ matches ExprV::List(vs, _) && vs == view_exprs(items@),
            items@.len() >= 1,
        ensures
            final(self).wf(),
            instrs_grow(old(self).f.body@, final(self).f.body@),
            r is Ok ==> final(self).env@.len() == old(self).env@.len(),
            r matches Ok(t) ==> t == Ty::Bytes,
            items@.len() != 4 ==> (r matches Err(e) && e.kind == CompileErrorKind::Parse && e.message@ == "bytes.set_u8 expects 3 args"@),
            items@.len() != 4 ==> *final(self) == *old(self),
            (items@.len() == 4 && atom_is(old(self).env@, items@[1]@, Ty::Bytes) && atom_is(old(self).env@, items@[2]@, Ty::I32) && atom_is(old(self).env@, items@[3]@, Ty::I32)) ==> r == Ok::<Ty, CompilerError>(Ty::Bytes),
        decreases whole@, 2nat,
    {
        if (items.len() - 1) != 3 {
            return Err(CompilerError::new(
                CompileErrorKind::Parse,
                "bytes.set_u8 expects 3 args".to_string(),
            ));
        }
        proof {
            lemma_child(whole@, items@, 1);
        }
        let b_ty = self.emit_expr(&items[1])?;
        if b_ty != Ty::Bytes {
            return Err(CompilerError::new(
                CompileErrorKind::Typing,
                "bytes.set_u8 expects bytes".to_string(),
            ));
        }
        proof {
            lemma_child(whole@, items@, 2);
        }
        let idx_ty = self.emit_expr(&items[2])?;
        proof {
            lemma_child(whole@, items@, 3);
        }
        let v_ty = self.emit_expr(&items[3])?;
        if idx_ty != Ty::I32 || v_ty != Ty::I32 {
            return Err(CompilerError::new(
                CompileErrorKind::Typing,
                "bytes.set_u8 expects (bytes, i32, i32)".to_string(),
            ));
        }

        let v = self.f.new_i32_local();
        let idx = self.f.new_i32_local();
        let len = self.f.new_i32_local();
        let ptr = self.f.new_i32_local();
        self.f.push(Instr::LocalSet(v));
        self.f.push(Instr::LocalSet(idx));
        self.f.push(Instr::LocalSet(len));
        self.f.push(Instr::LocalSet(ptr));

        // trap if idx >= len (unsigned)
        self.f.push(Instr::LocalGet(idx));
        self.f.push(Instr::LocalGet(len));
        self.f.push(Instr::I32LtU);
        self.f.push(Instr::If);
        self.f.push(Instr::Else);
        self.f.push(Instr::Unreachable);
        self.f.push(Instr::End);

        // *(ptr+idx) = (v & 0xFF)
        self.f.push(Instr::LocalGet(ptr));
        self.f.push(Instr::LocalGet(idx));
        self.f.push(Instr::I32Add);
        self.f.push(Instr::LocalGet(v));
        self.f.push(Instr::I32Store8(MemArgV { offset: 0, align: 0 }));

        // return bytes (ptr,len)
        self.f.push(Instr::LocalGet(ptr));
        self.f.push(Instr::LocalGet(len));
        Ok(Ty::Bytes)
    }

    fn emit_bytes_alloc(&mut self, whole: &Expr, items: &Vec<Expr>) -> (r: Result<Ty, CompilerError>)
        requires
            old(self).wf(),
            whole@ matches ExprV::List(vs, _) && vs == view_exprs(items@),
            items@.len() >= 1,
        ensures
            final(self).wf(),
            instrs_grow(old(self).f.body@, final(self).f.body@),
            r is Ok ==> final(self).env@.len() == old(self).env@.len(),
            r matches Ok(t) ==> t == Ty::Bytes,
            items@.len() != 2 ==> (r matches Err(e) && e.kind == CompileErrorKind::Parse && e.message@ == "bytes.alloc expects 1 arg"@),
            items@.len() != 2 ==> *final(self) == *old(self),
            (items@.len() == 2 && atom_is(old(self).env@, items@[1]@, Ty::I32)) ==> r == Ok::<Ty, CompilerError>(Ty::Bytes),
        decreases whole@, 2nat,
    {
        if (items.len() - 1) != 1 {
            return Err(CompilerError::new(
                CompileErrorKind::Parse,
                "bytes.alloc expects 1 arg".to_string(),
            ));
        }
        proof {
            lemma_child(whole@, items@, 1);
        }
        let len_ty = self.emit_expr(&items[1])?;
        if len_ty != Ty::I32 {
            return Err(CompilerError::new(
                CompileErrorKind::Typing,
                "bytes.alloc length must be i32".to_string(),
            ));
        }

        let len = self.f.new_i32_local();
        self.f.push(Instr::LocalSet(len));

        let out_ptr = self.f.new_i32_local();
        self.f.push(Instr::LocalGet(len));
        self.f.push(Instr::I32Eqz);
        self.f.push(Instr::If);
        self.f.push(Instr::GlobalGet(self.module.heap_base_global));
        self.f.push(Instr::LocalSet(out_ptr));
        self.f.push(Instr::Else);
        self.f.push(Instr::LocalGet(len));
        self.f.push(Instr::I32Const(1));
        self.f.push(Instr::Call(self.module.rt_alloc_fn));
        self.f.push(Instr::LocalSet(out_ptr));
        self.f.push(Instr::End);

        self.f.push(Instr::LocalGet(out_ptr));
        self.f.push(Instr::LocalGet(len));
        Ok(Ty::Bytes)
    }

    fn emit_bytes_concat(&mut self, whole: &Expr, items: &Vec<Expr>) -> (r: Result<Ty, CompilerError>)
        requires
            old(self).wf(),
            whole@ matches ExprV::List(vs, _) && vs == view_exprs(items@),
            items@.len() >= 1,
        ensures
            final(self).wf(),
            instrs_grow(old(self).f.body@, final(self).f.body@),
            r is Ok ==> final(self).env@.len() == old(self).env@.len(),
            r matches Ok(t) ==> t == Ty::Bytes,
            items@.len() != 3 ==> (r matches Err(e) && e.kind == CompileErrorKind::Parse && e.message@ == "bytes.concat expects 2 args"@),
            items@.len() != 3 ==> *final(self) == *old(self),
            (items@.len() == 3 && atom_is(old(self).env@, items@[1]@, Ty::Bytes) && atom_is(old(self).env@, items@[2]@, Ty::Bytes)) ==> r == Ok::<Ty, CompilerError>(Ty::Bytes),
        decreases whole@, 2nat,
    {
        if (items.len() - 1) != 2 {
            return Err(CompilerError::new(
                CompileErrorKind::Parse,
                "bytes.concat expects 2 args".to_string(),
            ));
        }
        proof {
            lemma_child(whole@, items@, 1);
        }
        let a_ty = self.emit_expr(&items[1])?;
        proof {
            lemma_child(whole@, items@, 2);
        }
        let b_ty = self.emit_expr(&items[2])?;
        if a_ty != Ty::Bytes || b_ty != Ty::Bytes {
            return Err(CompilerError::new(
                CompileErrorKind::Typing,
                "bytes.concat expects (bytes, bytes)".to_string(),
            ));
        }

        let b_len = self.f.new_i32_local();
        let b_ptr = self.f.new_i32_local();
        let a_len = self.f.new_i32_local();
        let a_ptr = self.f.new_i32_local();
        self.f.push(Instr::LocalSet(b_len));
        self.f.push(Instr::LocalSet(b_ptr));
        self.f.push(Instr::LocalSet(a_len));
        self.f.push(Instr::LocalSet(a_ptr));

        let out_len = self.f.new_i32_local();
        self.f.push(Instr::LocalGet(a_len));
        self.f.push(Instr::LocalGet(b_len));
        self.f.push(Instr::I32Add);
        self.f.push(Instr::LocalSet(out_len));

        let out_ptr = self.f.new_i32_local();
        self.f.push(Instr::LocalGet(out_len));
        self.f.push(Instr::I32Const(1));
        self.f.push(Instr::Call(self.module.rt_alloc_fn));
        self.f.push(Instr::LocalSet(out_ptr));

        // copy a
        self.f.push(Instr::LocalGet(out_ptr));
        self.f.push(Instr::LocalGet(a_ptr));
        self.f.push(Instr::LocalGet(a_len));
        self.f.push(Instr::MemoryCopy);

        // copy b
        self.f.push(Instr::LocalGet(out_ptr));
        self.f.push(Instr::LocalGet(a_len));
        self.f.push(Instr::I32Add);
        self.f.push(Instr::LocalGet(b_ptr));
        self.f.push(Instr::LocalGet(b_len));
        self.f.push(Instr::MemoryCopy);

        self.f.push(Instr::LocalGet(out_ptr));
        self.f.push(Instr::LocalGet(out_len));
        Ok(Ty::Bytes)
    }

    fn emit_bytes_eq(&mut self, whole: &Expr, items: &Vec<Expr>) -> (r: Result<Ty, CompilerError>)
        requires
            old(self).wf(),
            whole@ matches ExprV::List(vs, _) && vs == view_exprs(items@),
            items@.len() >= 1,
        ensures
            final(self).wf(),
            instrs_grow(old(self).f.body@, final(self).f.body@),
            r is Ok ==> final(self).env@.len() == old(self).env@.len(),
            items@.len() != 3 ==> (r matches Err(e) && e.kind == CompileErrorKind::Parse && e.message@ == "bytes.eq expects 2 args"@),
            items@.len() != 3 ==> *final(self) == *old(self),
            (items@.len() == 3 && atom_is_byteish(old(self).env@, items@[1]@) && atom_is_byteish(old(self).env@, items@[2]@)) ==> r == Ok::<Ty, CompilerError>(Ty::I32),
        decreases whole@, 2nat,
    {
        if (items.len() - 1) != 2 {
            return Err(CompilerError::new(
                CompileErrorKind::Parse,
                "bytes.eq expects 2 args".to_string(),
            ));
        }
        self.emit_view_eq(whole, items)
    }

    fn emit_bytes_cmp_range(&mut self, whole: &Expr, items: &Vec<Expr>) -> (r: Result<Ty, CompilerError>)
        requires
            old(self).wf(),
            whole@ matches ExprV::List(vs, _) && vs == view_exprs(items@),
            items@.len() >= 1,
        ensures
            final(self).wf(),
            instrs_grow(old(self).f.body@, final(self).f.body@),
            r is Ok ==> final(self).env@.len() == old(self).env@.len(),
            r matches Ok(t) ==> t == Ty::I32,
            items@.len() != 7 ==> (r matches Err(e) && e.kind == CompileErrorKind::Parse && e.message@ == "bytes.cmp_range expects 6 args"@),
            items@.len() != 7 ==> *final(self) == *old(self),
            (items@.len() == 7 && atom_is(old(self).env@, items@[1]@, Ty::BytesView) && atom_is(old(self).env@, items@[2]@, Ty::I32) && atom_is(old(self).env@, items@[3]@, Ty::I32) && atom_is(old(self).env@, items@[4]@, Ty::BytesView) && atom_is(old(self).env@, items@[5]@, Ty::I32) && atom_is(old(self).env@, items@[6]@, Ty::I32)) ==> r == Ok::<Ty, CompilerError>(Ty::I32),
        decreases whole@, 2nat,
    {
        if (items.len() - 1) != 6 {
            return Err(CompilerError::new(
                CompileErrorKind::Parse,
                "bytes.cmp_range expects 6 args".to_string(),
            ));
        }
        proof {
            lemma_child(whole@, items@, 1);
        }
        let a_ty = self.emit_expr(&items[1])?;
        proof {
            lemma_child(whole@, items@, 2);
        }
        let a_off_ty = self.emit_expr(&items[2])?;
        proof {
            lemma_child(whole@, items@, 3);
        }
        let a_len_ty = self.emit_expr(&items[3])?;
        proof {
            lemma_child(whole@, items@, 4);
        }
        let b_ty = self.emit_expr(&items[4])?;
        proof {
            lemma_child(whole@, items@, 5);
        }
        let b_off_ty = self.emit_expr(&items[5])?;
        proof {
            lemma_child(whole@, items@, 6);
        }
        let b_len_ty = self.emit_expr(&items[6])?;
        if a_ty != Ty::BytesView
            || b_ty != Ty::BytesView
            || a_off_ty != Ty::I32
            || a_len_ty != Ty::I32
            || b_off_ty != Ty::I32
            || b_len_ty != Ty::I32
        {
            return Err(CompilerError::new(
                CompileErrorKind::Typing,
                "bytes.cmp_range expects (bytes_view, i32, i32, bytes_view, i32, i32)".to_string(),
            ));
        }

        emit_cmp_range_code(&mut self.f);
        Ok(Ty::I32)
    }

    fn emit_bytes_slice(&mut self, whole: &Expr, items: &Vec<Expr>) -> (r: Result<Ty, CompilerError>)
        requires
            old(self).wf(),
            whole@ matches ExprV::List(vs, _) && vs == view_exprs(items@),
            items@.len() >= 1,
        ensures
            final(self).wf(),
            instrs_grow(old(self).f.body@, final(self).f.body@),
            r is Ok ==> final(self).env@.len() == old(self).env@.len(),
            r matches Ok(t) ==> t == Ty::Bytes,
            items@.len() != 4 ==> (r matches Err(e) && e.kind == CompileErrorKind::Parse && e.message@ == "bytes.slice expects 3 args"@),
            items@.len() != 4 ==> *final(self) == *old(self),
            (items@.len() == 4 && atom_is_byteish(old(self).env@, items@[1]@) && atom_is(old(self).env@, items@[2]@, Ty::I32) && atom_is(old(self).env@, items@[3]@, Ty::I32)) ==> r == Ok::<Ty, CompilerError>(Ty::Bytes),
        decreases whole@, 2nat,
    {
        if (items.len() - 1) != 3 {
            return Err(CompilerError::new(
                CompileErrorKind::Parse,
                "bytes.slice expects 3 args".to_string(),
            ));
        }
        proof {
            lemma_child(whole@, items@, 1);
        }
        let v_ty = self.emit_expr(&items[1])?;
        proof {
            lemma_child(whole@, items@, 2);
        }
        let start_ty = self.emit_expr(&items[2])?;
        proof {
            lemma_child(whole@, items@, 3);
        }
        let len_ty = self.emit_expr(&items[3])?;
        if !(v_ty == Ty::BytesView || v_ty == Ty::Bytes) || start_ty != Ty::I32 || len_ty != Ty::I32 {
            return Err(CompilerError::new(
                CompileErrorKind::Typing,
                "bytes.slice expects (bytes_view, i32, i32)".to_string(),
            ));
        }

        let slice_len = self.f.new_i32_local();
        let start = self.f.new_i32_local();
        let view_len = self.f.new_i32_local();
        let view_ptr = self.f.new_i32_local();
        self.f.push(Instr::LocalSet(slice_len));
        self.f.push(Instr::LocalSet(start));
        self.f.push(Instr::LocalSet(view_len));
        self.f.push(Instr::LocalSet(view_ptr));

        // end = start + slice_len; trap if end > view_len (unsigned)
        let end = self.f.new_i32_local();
        self.f.push(Instr::LocalGet(start));
        self.f.push(Instr::LocalGet(slice_len));
        self.f.push(Instr::I32Add);
        self.f.push(Instr::LocalSet(end));

        self.f.push(Instr::LocalGet(end));
        self.f.push(Instr::LocalGet(view_len));
        self.f.push(Instr::I32LeU);
        self.f.push(Instr::If);
        self.f.push(Instr::Else);
        self.f.push(Instr::Unreachable);
        self.f.push(Instr::End);

        let out_ptr = self.f.new_i32_local();
        self.f.push(Instr::LocalGet(slice_len));
        self.f.push(Instr::I32Eqz);
        self.f.push(Instr::If);
        self.f.push(Instr::GlobalGet(self.module.heap_base_global));
        self.f.push(Instr::LocalSet(out_ptr));
        self.f.push(Instr::Else);

        self.f.push(Instr::LocalGet(slice_len));
        self.f.push(Instr::I32Const(1));
        self.f.push(Instr::Call(self.module.rt_alloc_fn));
        self.f.push(Instr::LocalSet(out_ptr));

        // memory.copy(out_ptr, view_ptr+start, slice_len)
        self.f.push(Instr::LocalGet(out_ptr));
        self.f.push(Instr::LocalGet(view_ptr));
        self.f.push(Instr::LocalGet(start));
        self.f.push(Instr::I32Add);
        self.f.push(Instr::LocalGet(slice_len));
        self.f.push(Instr::MemoryCopy);

        self.f.push(Instr::End);

        self.f.push(Instr::LocalGet(out_ptr));
        self.f.push(Instr::LocalGet(slice_len));
        Ok(Ty::Bytes)
    }

    fn emit_bytes_lit(&mut self, whole: &Expr, items: &Vec<Expr>) -> (r: Result<Ty, CompilerError>)
        requires
            old(self).wf(),
            whole@ matches ExprV::List(vs, _) && vs == view_exprs(items@),
            items@.len() >= 1,
        ensures
            final(self).wf(),
            instrs_grow(old(self).f.body@, final(self).f.body@),
            r is Ok ==> final(self).env@.len() == old(self).env@.len(),
            r matches Ok(t) ==> t == Ty::Bytes,
            r is Ok <==> items@.len() == 2 && expr_ident(items@[1]@) is Some,
            r is Ok ==> final(self).env == old(self).env,
            items@.len() != 2 ==> (r matches Err(e) && e.kind == CompileErrorKind::Parse && e.message@
                == "bytes.lit expects 1 arg"@),
            items@.len() == 2 && expr_ident(items@[1]@) is None ==> (r matches Err(e) && e.kind
                == CompileErrorKind::Parse && e.message@ == "bytes.lit expects a text string"@),
            r is Err ==> *final(self) == *old(self),
            r is Ok ==> final(self).f.locals@.len() == old(self).f.locals@.len() + 2,
        decreases whole@, 2nat,
    {
        if (items.len() - 1) != 1 {
            return Err(CompilerError::new(
                CompileErrorKind::Parse,
                "bytes.lit expects 1 arg".to_string(),
            ));
        }
        let s = match items[1].as_ident() {
            Some(s) => s,
            None => {
                return Err(
                    CompilerError::new(CompileErrorKind::Parse, "bytes.lit expects a text string".to_string()),
                );
            },
        };
        let lit = s.as_bytes();
        let off = self.module.data.intern(lit) as i32;
        let len: i32 = if lit.len() <= 2147483647 {
            lit.len() as i32
        } else {
            i32::MAX
        };

        let len_local = self.f.new_i32_local();
        self.f.push(Instr::I32Const(len));
        self.f.push(Instr::LocalSet(len_local));

        let out_ptr = self.f.new_i32_local();
        self.f.push(Instr::LocalGet(len_local));
        self.f.push(Instr::I32Eqz);
        self.f.push(Instr::If);
        self.f.push(Instr::GlobalGet(self.module.heap_base_global));
        self.f.push(Instr::LocalSet(out_ptr));
        self.f.push(Instr::Else);

        self.f.push(Instr::LocalGet(len_local));
        self.f.push(Instr::I32Const(1));
        self.f.push(Instr::Call(self.module.rt_alloc_fn));
        self.f.push(Instr::LocalSet(out_ptr));

        self.f.push(Instr::LocalGet(out_ptr));
        self.f.push(Instr::I32Const(off));
        self.f.push(Instr::LocalGet(len_local));
        self.f.push(Instr::MemoryCopy);

        self.f.push(Instr::End);

        self.f.push(Instr::LocalGet(out_ptr));
        self.f.push(Instr::LocalGet(len_local));
        Ok(Ty::Bytes)
    }

    fn emit_bytes_view_lit(&mut self, whole: &Expr, items: &Vec<Expr>) -> (r: Result<Ty, CompilerError>)
        requires
            old(self).wf(),
            whole@ matches ExprV::List(vs, _) && vs == view_exprs(items@),
            items@.len() >= 1,
        ensures
            final(self).wf(),
            instrs_grow(old(self).f.body@, final(self).f.body@),
            r is Ok ==> final(self).env@.len() == old(self).env@.len(),
            r matches Ok(t) ==> t == Ty::BytesView,
            r is Ok <==> items@.len() == 2 && expr_ident(items@[1]@) is Some,
            r is Ok ==> final(self).env == old(self).env,
            items@.len() != 2 ==> (r matches Err(e) && e.kind == CompileErrorKind::Parse && e.message@
                == "bytes.view_lit expects 1 arg"@),
            items@.len() == 2 && expr_ident(items@[1]@) is None ==> (r matches Err(e) && e.kind
                == CompileErrorKind::Parse && e.message@ == "bytes.view_lit expects a text string"@),
            r is Err ==> *final(self) == *old(self),
        decreases whole@, 2nat,
    {
        if (items.len() - 1) != 1 {
            return Err(CompilerError::new(
                CompileErrorKind::Parse,
                "bytes.view_lit expects 1 arg".to_string(),
            ));
        }
        let s = match items[1].as_ident() {
            Some(s) => s,
            None => {
                return Err(
                    CompilerError::new(CompileErrorKind::Parse, "bytes.view_lit expects a text string".to_string()),
                );
            },
        };
        let lit = s.as_bytes();
        let off = self.module.data.intern(lit) as i32;
        let len: i32 = if lit.len() <= 2147483647 {
            lit.len() as i32
        } else {
            i32::MAX
        };
        if len == 0 {
            self.f.push(Instr::GlobalGet(self.module.heap_base_global));
            self.f.push(Instr::I32Const(0));
        } else {
            self.f.push(Instr::I32Const(off));
            self.f.push(Instr::I32Const(len));
        }
        Ok(Ty::BytesView)
    }

    fn emit_codec_read_u32_le(&mut self, whole: &Expr, items: &Vec<Expr>) -> (r: Result<Ty, CompilerError>)
        requires
            old(self).wf(),
            whole@ matches ExprV::List(vs, _) && vs == view_exprs(items@),
            items@.len() >= 1,
        ensures
            final(self).wf(),
            instrs_grow(old(self).f.body@, final(self).f.body@),
            r is Ok ==> final(self).env@.len() == old(self).env@.len(),
            r matches Ok(t) ==> t == Ty::I32,
            items@.len() != 3 ==> (r matches Err(e) && e.kind == CompileErrorKind::Parse && e.message@ == "codec.read_u32_le expects 2 args"@),
            items@.len() != 3 ==> *final(self) == *old(self),
            (items@.len() == 3 && atom_is(old(self).env@, items@[1]@, Ty::BytesView) && atom_is(old(self).env@, items@[2]@, Ty::I32)) ==> r == Ok::<Ty, CompilerError>(Ty::I32),
        decreases whole@, 2nat,
    {
        if (items.len() - 1) != 2 {
            return Err(CompilerError::new(
                CompileErrorKind::Parse,
                "codec.read_u32_le expects 2 args".to_string(),
            ));
        }
        proof {
            lemma_child(whole@, items@, 1);
        }
        let v_ty = self.emit_expr(&items[1])?;
        proof {
            lemma_child(whole@, items@, 2);
        }
        let off_ty = self.emit_expr(&items[2])?;
        if v_ty != Ty::BytesView || off_ty != Ty::I32 {
            return Err(CompilerError::new(
                CompileErrorKind::Typing,
                "codec.read_u32_le expects (bytes_view, i32)".to_string(),
            ));
        }

        let off = self.f.new_i32_local();
        let len = self.f.new_i32_local();
        let ptr = self.f.new_i32_local();
        self.f.push(Instr::LocalSet(off));
        self.f.push(Instr::LocalSet(len));
        self.f.push(Instr::LocalSet(ptr));

        // end = off + 4; trap if end > len (unsigned)
        let end = self.f.new_i32_local();
        self.f.push(Instr::LocalGet(off));
        self.f.push(Instr::I32Const(4));
        self.f.push(Instr::I32Add);
        self.f.push(Instr::LocalSet(end));

        self.f.push(Instr::LocalGet(end));
        self.f.push(Instr::LocalGet(len));
        self.f.push(Instr::I32LeU);
        self.f.push(Instr::If);
        self.f.push(Instr::Else);
        self.f.push(Instr::Unreachable);
        self.f.push(Instr::End);

        self.f.push(Instr::LocalGet(ptr));
        self.f.push(Instr::LocalGet(off));
        self.f.push(Instr::I32Add);
        self.f.push(Instr::I32Load(MemArgV { offset: 0, align: 0 }));
        Ok(Ty::I32)
    }

    fn emit_codec_write_u32_le(&mut self, whole: &Expr, items: &Vec<Expr>) -> (r: Result<Ty, CompilerError>)
        requires
            old(self).wf(),
            whole@ matches ExprV::List(vs, _) && vs == view_exprs(items@),
            items@.len() >= 1,
        ensures
            final(self).wf(),
            instrs_grow(old(self).f.body@, final(self).f.body@),
            r is Ok ==> final(self).env@.len() == old(self).env@.len(),
            r matches Ok(t) ==> t == Ty::Bytes,
            items@.len() != 2 ==> (r matches Err(e) && e.kind == CompileErrorKind::Parse && e.message@ == "codec.write_u32_le expects 1 arg"@),
            items@.len() != 2 ==> *final(self) == *old(self),
            (items@.len() == 2 && atom_is(old(self).env@, items@[1]@, Ty::I32)) ==> r == Ok::<Ty, CompilerError>(Ty::Bytes),
        decreases whole@, 2nat,
    {
        if (items.len() - 1) != 1 {
            return Err(CompilerError::new(
                CompileErrorKind::Parse,
                "codec.write_u32_le expects 1 arg".to_string(),
            ));
        }
        proof {
            lemma_child(whole@, items@, 1);
        }
        let x_ty = self.emit_expr(&items[1])?;
        if x_ty != Ty::I32 {
            return Err(CompilerError::new(
                CompileErrorKind::Typing,
                "codec.write_u32_le expects i32".to_string(),
            ));
        }

        let x = self.f.new_i32_local();
        self.f.push(Instr::LocalSet(x));

        let out_ptr = self.f.new_i32_local();
        self.f.push(Instr::I32Const(4));
        self.f.push(Instr::I32Const(1));
        self.f.push(Instr::Call(self.module.rt_alloc_fn));
        self.f.push(Instr::LocalSet(out_ptr));

        self.f.push(Instr::LocalGet(out_ptr));
        self.f.push(Instr::LocalGet(x));
        self.f.push(Instr::I32Store(MemArgV { offset: 0, align: 0 }));

        self.f.push(Instr::LocalGet(out_ptr));
        self.f.push(Instr::I32Const(4));
        Ok(Ty::Bytes)
    }

    fn emit_vec_u8_with_capacity(&mut self, whole: &Expr, items: &Vec<Expr>) -> (r: Result<Ty, CompilerError>)
        requires
            old(self).wf(),
            whole@ matches ExprV::List(vs, _) && vs == view_exprs(items@),
            items@.len() >= 1,
        ensures
            final(self).wf(),
            instrs_grow(old(self).f.body@, final(self).f.body@),
            r is Ok ==> final(self).env@.len() == old(self).env@.len(),
            r matches Ok(t) ==> t == Ty::VecU8,
            items@.len() != 2 ==> (r matches Err(e) && e.kind == CompileErrorKind::Parse && e.message@ == "vec_u8.with_capacity expects 1 arg"@),
            items@.len() != 2 ==> *final(self) == *old(self),
            (items@.len() == 2 && atom_is(old(self).env@, items@[1]@, Ty::I32)) ==> r == Ok::<Ty, CompilerError>(Ty::VecU8),
        decreases whole@, 2nat,
    {
        if (items.len() - 1) != 1 {
            return Err(CompilerError::new(
                CompileErrorKind::Parse,
                "vec_u8.with_capacity expects 1 arg".to_string(),
            ));
        }
        proof {
            lemma_child(whole@, items@, 1);
        }
        let cap_ty = self.emit_expr(&items[1])?;
        if cap_ty != Ty::I32 {
            return Err(CompilerError::new(
                CompileErrorKind::Typing,
                "vec_u8.with_capacity expects i32".to_string(),
            ));
        }

        let cap = self.f.new_i32_local();
        self.f.push(Instr::LocalSet(cap));

        let data = self.f.new_i32_local();
        self.f.push(Instr::LocalGet(cap));
        self.f.push(Instr::I32Eqz);
        self.f.push(Instr::If);
        self.f.push(Instr::GlobalGet(self.module.heap_base_global));
        self.f.push(Instr::LocalSet(data));
        self.f.push(Instr::Else);
        self.f.push(Instr::LocalGet(cap));
        self.f.push(Instr::I32Const(1));
        self.f.push(Instr::Call(self.module.rt_alloc_fn));
        self.f.push(Instr::LocalSet(data));
        self.f.push(Instr::End);

        // return (data, len=0, cap)
        self.f.push(Instr::LocalGet(data));
        self.f.push(Instr::I32Const(0));
        self.f.push(Instr::LocalGet(cap));
        Ok(Ty::VecU8)
    }

    fn emit_vec_u8_len(&mut self, whole: &Expr, items: &Vec<Expr>) -> (r: Result<Ty, CompilerError>)
        requires
            old(self).wf(),
            whole@ matches ExprV::List(vs, _) && vs == view_exprs(items@),
            items@.len() >= 1,
        ensures
            final(self).wf(),
            instrs_grow(old(self).f.body@, final(self).f.body@),
            r is Ok ==> final(self).env@.len() == old(self).env@.len(),
            r matches Ok(t) ==> t == Ty::I32,
            items@.len() != 2 ==> (r matches Err(e) && e.kind == CompileErrorKind::Parse && e.message@ == "vec_u8.len expects 1 arg"@),
            items@.len() != 2 ==> *final(self) == *old(self),
            (items@.len() == 2 && atom_is(old(self).env@, items@[1]@, Ty::VecU8)) ==> r == Ok::<Ty, CompilerError>(Ty::I32),
        decreases whole@, 2nat,
    {
        if (items.len() - 1) != 1 {
            return Err(CompilerError::new(
                CompileErrorKind::Parse,
                "vec_u8.len expects 1 arg".to_string(),
            ));
        }
        proof {
            lemma_child(whole@, items@, 1);
        }
        let v_ty = self.emit_expr(&items[1])?;
        if v_ty != Ty::VecU8 {
            return Err(CompilerError::new(
                CompileErrorKind::Typing,
                "vec_u8.len expects vec_u8".to_string(),
            ));
        }
        let cap = self.f.new_i32_local();
        let len = self.f.new_i32_local();
        self.f.push(Instr::LocalSet(cap));
        self.f.push(Instr::LocalSet(len));
        self.f.push(Instr::Drop); // data
        self.f.push(Instr::LocalGet(len));
        Ok(Ty::I32)
    }

    fn emit_vec_u8_get(&mut self, whole: &Expr, items: &Vec<Expr>) -> (r: Result<Ty, CompilerError>)
        requires
            old(self).wf(),
            whole@ matches ExprV::List(vs, _) && vs == view_exprs(items@),
            items@.len() >= 1,
        ensures
            final(self).wf(),
            instrs_grow(old(self).f.body@, final(self).f.body@),
            r is Ok ==> final(self).env@.len() == old(self).env@.len(),
            r matches Ok(t) ==> t == Ty::I32,
            items@.len() != 3 ==> (r matches Err(e) && e.kind == CompileErrorKind::Parse && e.message@ == "vec_u8.get expects 2 args"@),
            items@.len() != 3 ==> *final(self) == *old(self),
            (items@.len() == 3 && atom_is(old(self).env@, items@[1]@, Ty::VecU8) && atom_is(old(self).env@, items@[2]@, Ty::I32)) ==> r == Ok::<Ty, CompilerError>(Ty::I32),
        decreases whole@, 2nat,
    {
        if (items.len() - 1) != 2 {
            return Err(CompilerError::new(
                CompileErrorKind::Parse,
                "vec_u8.get expects 2 args".to_string(),
            ));
        }
        proof {
            lemma_child(whole@, items@, 1);
        }
        let v_ty = self.emit_expr(&items[1])?;
        proof {
            lemma_child(whole@, items@, 2);
        }
        let idx_ty = self.emit_expr(&items[2])?;
        if v_ty != Ty::VecU8 || idx_ty != Ty::I32 {
            return Err(CompilerError::new(
                CompileErrorKind::Typing,
                "vec_u8.get expects (vec_u8, i32)".to_string(),
            ));
        }

        let idx = self.f.new_i32_local();
        let cap = self.f.new_i32_local();
        let len = self.f.new_i32_local();
        let data = self.f.new_i32_local();
        self.f.push(Instr::LocalSet(idx));
        self.f.push(Instr::LocalSet(cap));
        self.f.push(Instr::LocalSet(len));
        self.f.push(Instr::LocalSet(data));

        // trap if idx >= len
        self.f.push(Instr::LocalGet(idx));
        self.f.push(Instr::LocalGet(len));
        self.f.push(Instr::I32LtU);
        self.f.push(Instr::If);
        self.f.push(Instr::Else);
        self.f.push(Instr::Unreachable);
        self.f.push(Instr::End);

        self.f.push(Instr::LocalGet(data));
        self.f.push(Instr::LocalGet(idx));
        self.f.push(Instr::I32Add);
        self.f.push(Instr::I32Load8U(MemArgV { offset: 0, align: 0 }));
        Ok(Ty::I32)
    }

    fn emit_vec_u8_push(&mut self, whole: &Expr, items: &Vec<Expr>) -> (r: Result<Ty, CompilerError>)
        requires
            old(self).wf(),
            whole@ matches ExprV::List(vs, _) && vs == view_exprs(items@),
            items@.len() >= 1,
        ensures
            final(self).wf(),
            instrs_grow(old(self).f.body@, final(self).f.body@),
            r is Ok ==> final(self).env@.len() == old(self).env@.len(),
            r matches Ok(t) ==> t == Ty::VecU8,
            items@.len() != 3 ==> (r matches Err(e) && e.kind == CompileErrorKind::Parse && e.message@ == "vec_u8.push expects 2 args"@),
            items@.len() != 3 ==> *final(self) == *old(self),
            (items@.len() == 3 && atom_is(old(self).env@, items@[1]@, Ty::VecU8) && atom_is(old(self).env@, items@[2]@, Ty::I32)) ==> r == Ok::<Ty, CompilerError>(Ty::VecU8),
        decreases whole@, 2nat,
    {
        if (items.len() - 1) != 2 {
            return Err(CompilerError::new(
                CompileErrorKind::Parse,
                "vec_u8.push expects 2 args".to_string(),
            ));
        }
        proof {
            lemma_child(whole@, items@, 1);
        }
        let v_ty = self.emit_expr(&items[1])?;
        proof {
            lemma_child(whole@, items@, 2);
        }
        let x_ty = self.emit_expr(&items[2])?;
        if v_ty != Ty::VecU8 || x_ty != Ty::I32 {
            return Err(CompilerError::new(
                CompileErrorKind::Typing,
                "vec_u8.push expects (vec_u8, i32)".to_string(),
            ));
        }

        let x = self.f.new_i32_local();
        let cap = self.f.new_i32_local();
        let len = self.f.new_i32_local();
        let data = self.f.new_i32_local();
        self.f.push(Instr::LocalSet(x));
        self.f.push(Instr::LocalSet(cap));
        self.f.push(Instr::LocalSet(len));
        self.f.push(Instr::LocalSet(data));

        // if len == cap, grow
        self.f.push(Instr::LocalGet(len));
        self.f.push(Instr::LocalGet(cap));
        self.f.push(Instr::I32Eq);
        self.f.push(Instr::If);

        let new_cap = self.f.new_i32_local();
        // new_cap = (cap == 0) ? 1 : (cap * 2)
        self.f.push(Instr::LocalGet(cap));
        self.f.push(Instr::I32Eqz);
        self.f.push(Instr::If);
        self.f.push(Instr::I32Const(1));
        self.f.push(Instr::LocalSet(new_cap));
        self.f.push(Instr::Else);
        self.f.push(Instr::LocalGet(cap));
        self.f.push(Instr::I32Const(2));
        self.f.push(Instr::I32Mul);
        self.f.push(Instr::LocalSet(new_cap));
        self.f.push(Instr::End);

        let new_data = self.f.new_i32_local();
        self.f.push(Instr::LocalGet(new_cap));
        self.f.push(Instr::I32Const(1));
        self.f.push(Instr::Call(self.module.rt_alloc_fn));
        self.f.push(Instr::LocalSet(new_data));

        // copy old data
        self.f.push(Instr::LocalGet(new_data));
        self.f.push(Instr::LocalGet(data));
        self.f.push(Instr::LocalGet(len));
        self.f.push(Instr::MemoryCopy);

        self.f.push(Instr::LocalGet(new_data));
        self.f.push(Instr::LocalSet(data));
        self.f.push(Instr::LocalGet(new_cap));
        self.f.push(Instr::LocalSet(cap));

        self.f.push(Instr::End); // if grow

        // store x at data[len]
        self.f.push(Instr::LocalGet(data));
        self.f.push(Instr::LocalGet(len));
        self.f.push(Instr::I32Add);
        self.f.push(Instr::LocalGet(x));
        self.f.push(Instr::I32Store8(MemArgV { offset: 0, align: 0 }));

        // len += 1
        self.f.push(Instr::LocalGet(len));
        self.f.push(Instr::I32Const(1));
        self.f.push(Instr::I32Add);
        self.f.push(Instr::LocalSet(len));

        // return vec
        self.f.push(Instr::LocalGet(data));
        self.f.push(Instr::LocalGet(len));
        self.f.push(Instr::LocalGet(cap));
        Ok(Ty::VecU8)
    }

    fn emit_vec_u8_reserve_exact(&mut self, whole: &Expr, items: &Vec<Expr>) -> (r: Result<Ty, CompilerError>)
        requires
            old(self).wf(),
            whole@ matches ExprV::List(vs, _) && vs == view_exprs(items@),
            items@.len() >= 1,
        ensures
            final(self).wf(),
            instrs_grow(old(self).f.body@, final(self).f.body@),
            r is Ok ==> final(self).env@.len() == old(self).env@.len(),
            r matches Ok(t) ==> t == Ty::VecU8,
            items@.len() != 3 ==> (r matches Err(e) && e.kind == CompileErrorKind::Parse && e.message@ == "vec_u8.reserve_exact expects 2 args"@),
            items@.len() != 3 ==> *final(self) == *old(self),
            (items@.len() == 3 && atom_is(old(self).env@, items@[1]@, Ty::VecU8) && atom_is(old(self).env@, items@[2]@, Ty::I32)) ==> r == Ok::<Ty, CompilerError>(Ty::VecU8),
        decreases whole@, 2nat,
    {
        if (items.len() - 1) != 2 {
            return Err(CompilerError::new(
                CompileErrorKind::Parse,
                "vec_u8.reserve_exact expects 2 args".to_string(),
            ));
        }
        proof {
            lemma_child(whole@, items@, 1);
        }
        let v_ty = self.emit_expr(&items[1])?;
        proof {
            lemma_child(whole@, items@, 2);
        }
        let add_ty = self.emit_expr(&items[2])?;
        if v_ty != Ty::VecU8 || add_ty != Ty::I32 {
            return Err(CompilerError::new(
                CompileErrorKind::Typing,
                "vec_u8.reserve_exact expects (vec_u8, i32)".to_string(),
            ));
        }

        let additional = self.f.new_i32_local();
        let cap = self.f.new_i32_local();
        let len = self.f.new_i32_local();
        let data = self.f.new_i32_local();
        self.f.push(Instr::LocalSet(additional));
        self.f.push(Instr::LocalSet(cap));
        self.f.push(Instr::LocalSet(len));
        self.f.push(Instr::LocalSet(data));

        // need = len + additional
        let need = self.f.new_i32_local();
        self.f.push(Instr::LocalGet(len));
        self.f.push(Instr::LocalGet(additional));
        self.f.push(Instr::I32Add);
        self.f.push(Instr::LocalSet(need));

        // if need <= cap: return
        self.f.push(Instr::LocalGet(need));
        self.f.push(Instr::LocalGet(cap));
        self.f.push(Instr::I32LeU);
        self.f.push(Instr::If);
        self.f.push(Instr::Else);

        let new_data = self.f.new_i32_local();
        self.f.push(Instr::LocalGet(need));
        self.f.push(Instr::I32Const(1));
        self.f.push(Instr::Call(self.module.rt_alloc_fn));
        self.f.push(Instr::LocalSet(new_data));

        self.f.push(Instr::LocalGet(new_data));
        self.f.push(Instr::LocalGet(data));
        self.f.push(Instr::LocalGet(len));
        self.f.push(Instr::MemoryCopy);

        self.f.push(Instr::LocalGet(new_data));
        self.f.push(Instr::LocalSet(data));
        self.f.push(Instr::LocalGet(need));
        self.f.push(Instr::LocalSet(cap));

        self.f.push(Instr::End);

        self.f.push(Instr::LocalGet(data));
        self.f.push(Instr::LocalGet(len));
        self.f.push(Instr::LocalGet(cap));
        Ok(Ty::VecU8)
    }

    fn emit_vec_u8_extend_bytes(&mut self, whole: &Expr, items: &Vec<Expr>) -> (r: Result<Ty, CompilerError>)
        requires
            old(self).wf(),
            whole@ matches ExprV::List(vs, _) && vs == view_exprs(items@),
            items@.len() >= 1,
        ensures
            final(self).wf(),
            instrs_grow(old(self).f.body@, final(self).f.body@),
            r is Ok ==> final(self).env@.len() == old(self).env@.len(),
            r matches Ok(t) ==> t == Ty::VecU8,
            items@.len() != 3 ==> (r matches Err(e) && e.kind == CompileErrorKind::Parse && e.message@ == "vec_u8.extend_bytes expects 2 args"@),
            items@.len() != 3 ==> *final(self) == *old(self),
            (items@.len() == 3 && atom_is(old(self).env@, items@[1]@, Ty::VecU8) && atom_is_byteish(old(self).env@, items@[2]@)) ==> r == Ok::<Ty, CompilerError>(Ty::VecU8),
        decreases whole@, 2nat,
    {
        if (items.len() - 1) != 2 {
            return Err(CompilerError::new(
                CompileErrorKind::Parse,
                "vec_u8.extend_bytes expects 2 args".to_string(),
            ));
        }
        proof {
            lemma_child(whole@, items@, 1);
        }
        let v_ty = self.emit_expr(&items[1])?;
        proof {
            lemma_child(whole@, items@, 2);
        }
        let b_ty = self.emit_expr(&items[2])?;
        if v_ty != Ty::VecU8 || !(b_ty == Ty::BytesView || b_ty == Ty::Bytes) {
            return Err(CompilerError::new(
                CompileErrorKind::Typing,
                got2("vec_u8.extend_bytes expects (vec_u8, bytes_view) (got ", v_ty, b_ty),
            ));
        }

        let b_len = self.f.new_i32_local();
        let b_ptr = self.f.new_i32_local();
        let cap = self.f.new_i32_local();
        let len = self.f.new_i32_local();
        let data = self.f.new_i32_local();
        self.f.push(Instr::LocalSet(b_len));
        self.f.push(Instr::LocalSet(b_ptr));
        self.f.push(Instr::LocalSet(cap));
        self.f.push(Instr::LocalSet(len));
        self.f.push(Instr::LocalSet(data));

        self.emit_vec_u8_extend_from_locals(data, len, cap, b_ptr, b_len)?;
        Ok(Ty::VecU8)
    }

    #[verifier::spinoff_prover]
    #[verifier::rlimit(100)]
    fn emit_vec_u8_extend_from_locals(&mut self, data: u32, len: u32, cap: u32, src_ptr: u32, src_len: u32) -> (r: Result<(), CompilerError>)
        requires
            old(self).wf(),
        ensures
            final(self).wf(),
            instrs_grow(old(self).f.body@, final(self).f.body@),
            final(self).env == old(self).env,
            r is Ok,
            final(self).module == old(self).module,
            final(self).f.params_flat_len == old(self).f.params_flat_len,
            final(self).f.locals@ == old(self).f.locals@ + i32_locals(3),
            final(self).f.body@ == old(self).f.body@ + extend_from_locals_code(
                old(self).f.params_flat_len,
                old(self).f.locals@.len(),
                data,
                len,
                cap,
                src_ptr,
                src_len,
                old(self).module.rt_alloc_fn,
            ),
    {
        // need = len + src_len
        let need = self.f.new_i32_local();
        self.f.push(Instr::LocalGet(len));
        self.f.push(Instr::LocalGet(src_len));
        self.f.push(Instr::I32Add);
        self.f.push(Instr::LocalSet(need));

        // grow if need > cap
        self.f.push(Instr::LocalGet(need));
        self.f.push(Instr::LocalGet(cap));
        self.f.push(Instr::I32GtU);
        self.f.push(Instr::If);

        // new_cap = cap; while new_cap < need: new_cap *= 2
        let new_cap = self.f.new_i32_local();
        self.f.push(Instr::LocalGet(cap));
        self.f.push(Instr::LocalSet(new_cap));
        self.f.push(Instr::LocalGet(new_cap));
        self.f.push(Instr::I32Eqz);
        self.f.push(Instr::If);
        self.f.push(Instr::I32Const(1));
        self.f.push(Instr::LocalSet(new_cap));
        self.f.push(Instr::End);

        self.f.push(Instr::Block);
        self.f.push(Instr::Loop);
        self.f.push(Instr::LocalGet(new_cap));
        self.f.push(Instr::LocalGet(need));
        self.f.push(Instr::I32GeU);
        self.f.push(Instr::BrIf(1));
        self.f.push(Instr::LocalGet(new_cap));
        self.f.push(Instr::I32Const(2));
        self.f.push(Instr::I32Mul);
        self.f.push(Instr::LocalSet(new_cap));
        self.f.push(Instr::Br(0));
        self.f.push(Instr::End);
        self.f.push(Instr::End);

        let new_data = self.f.new_i32_local();
        self.f.push(Instr::LocalGet(new_cap));
        self.f.push(Instr::I32Const(1));
        self.f.push(Instr::Call(self.module.rt_alloc_fn));
        self.f.push(Instr::LocalSet(new_data));

        self.f.push(Instr::LocalGet(new_data));
        self.f.push(Instr::LocalGet(data));
        self.f.push(Instr::LocalGet(len));
        self.f.push(Instr::MemoryCopy);

        self.f.push(Instr::LocalGet(new_data));
        self.f.push(Instr::LocalSet(data));
        self.f.push(Instr::LocalGet(new_cap));
        self.f.push(Instr::LocalSet(cap));

        self.f.push(Instr::End); // if grow

        // copy src bytes at data+len
        self.f.push(Instr::LocalGet(data));
        self.f.push(Instr::LocalGet(len));
        self.f.push(Instr::I32Add);
        self.f.push(Instr::LocalGet(src_ptr));
        self.f.push(Instr::LocalGet(src_len));
        self.f.push(Instr::MemoryCopy);

        self.f.push(Instr::LocalGet(need));
        self.f.push(Instr::LocalSet(len));

        self.f.push(Instr::LocalGet(data));
        self.f.push(Instr::LocalGet(len));
        self.f.push(Instr::LocalGet(cap));
        proof {
            assert(self.f.locals@ =~= old(self).f.locals@ + i32_locals(3));
            assert(self.f.body@ =~= old(self).f.body@ + extend_from_locals_code(
                old(self).f.params_flat_len,
                old(self).f.locals@.len(),
                data,
                len,
                cap,
                src_ptr,
                src_len,
                old(self).module.rt_alloc_fn,
            ));
        }
        Ok(())
    }

    fn emit_vec_u8_extend_bytes_range(&mut self, whole: &Expr, items: &Vec<Expr>) -> (r: Result<Ty, CompilerError>)
        requires
            old(self).wf(),
            whole@ matches ExprV::List(vs, _) && vs == view_exprs(items@),
            items@.len() >= 1,
        ensures
            final(self).wf(),
            instrs_grow(old(self).f.body@, final(self).f.body@),
            r is Ok ==> final(self).env@.len() == old(self).env@.len(),
            r matches Ok(t) ==> t == Ty::VecU8,
            items@.len() != 5 ==> (r matches Err(e) && e.kind == CompileErrorKind::Parse && e.message@ == "vec_u8.extend_bytes_range expects 4 args"@),
            items@.len() != 5 ==> *final(self) == *old(self),
            (items@.len() == 5 && atom_is(old(self).env@, items@[1]@, Ty::VecU8) && atom_is_byteish(old(self).env@, items@[2]@) && atom_is(old(self).env@, items@[3]@, Ty::I32) && atom_is(old(self).env@, items@[4]@, Ty::I32)) ==> r == Ok::<Ty, CompilerError>(Ty::VecU8),
        decreases whole@, 2nat,
    {
        if (items.len() - 1) != 4 {
            return Err(CompilerError::new(
                CompileErrorKind::Parse,
                "vec_u8.extend_bytes_range expects 4 args".to_string(),
            ));
        }
        proof {
            lemma_child(whole@, items@, 1);
        }
        let v_ty = self.emit_expr(&items[1])?;
        proof {
            lemma_child(whole@, items@, 2);
        }
        let b_ty = self.emit_expr(&items[2])?;
        proof {
            lemma_child(whole@, items@, 3);
        }
        let start_ty = self.emit_expr(&items[3])?;
        proof {
            lemma_child(whole@, items@, 4);
        }
        let len_ty = self.emit_expr(&items[4])?;
        if v_ty != Ty::VecU8
            || !(b_ty == Ty::BytesView || b_ty == Ty::Bytes)
            || start_ty != Ty::I32
            || len_ty != Ty::I32
        {
            return Err(CompilerError::new(
                CompileErrorKind::Typing,
                got4("vec_u8.extend_bytes_range expects (vec_u8, bytes_view, i32, i32) (got ", v_ty, b_ty, start_ty, len_ty),
            ));
        }

        let range_len = self.f.new_i32_local();
        let start = self.f.new_i32_local();
        let b_view_len = self.f.new_i32_local();
        let b_ptr = self.f.new_i32_local();
        let cap = self.f.new_i32_local();
        let v_len = self.f.new_i32_local();
        let data = self.f.new_i32_local();
        self.f.push(Instr::LocalSet(range_len));
        self.f.push(Instr::LocalSet(start));
        self.f.push(Instr::LocalSet(b_view_len));
        self.f.push(Instr::LocalSet(b_ptr));
        self.f.push(Instr::LocalSet(cap));
        self.f.push(Instr::LocalSet(v_len));
        self.f.push(Instr::LocalSet(data));

        // bounds: start + range_len <= b_view_len
        let end = self.f.new_i32_local();
        self.f.push(Instr::LocalGet(start));
        self.f.push(Instr::LocalGet(range_len));
        self.f.push(Instr::I32Add);
        self.f.push(Instr::LocalSet(end));

        self.f.push(Instr::LocalGet(end));
        self.f.push(Instr::LocalGet(b_view_len));
        self.f.push(Instr::I32LeU);
        self.f.push(Instr::If);
        self.f.push(Instr::Else);
        self.f.push(Instr::Unreachable);
        self.f.push(Instr::End);

        // Create a subview (b_ptr+start, range_len) and call extend_bytes.
        let sub_ptr = self.f.new_i32_local();
        self.f.push(Instr::LocalGet(b_ptr));
        self.f.push(Instr::LocalGet(start));
        self.f.push(Instr::I32Add);
        self.f.push(Instr::LocalSet(sub_ptr));

        self.emit_vec_u8_extend_from_locals(data, v_len, cap, sub_ptr, range_len)?;
        Ok(Ty::VecU8)
    }

    fn emit_vec_u8_as_view(&mut self, whole: &Expr, items: &Vec<Expr>) -> (r: Result<Ty, CompilerError>)
        requires
            old(self).wf(),
            whole@ matches ExprV::List(vs, _) && vs == view_exprs(items@),
            items@.len() >= 1,
        ensures
            final(self).wf(),
            instrs_grow(old(self).f.body@, final(self).f.body@),
            r is Ok ==> final(self).env@.len() == old(self).env@.len(),
            r matches Ok(t) ==> t == Ty::BytesView,
            items@.len() != 2 ==> (r matches Err(e) && e.kind == CompileErrorKind::Parse && e.message@ == "vec_u8.as_view expects 1 arg"@),
            items@.len() != 2 ==> *final(self) == *old(self),
            (items@.len() == 2 && atom_is(old(self).env@, items@[1]@, Ty::VecU8)) ==> r == Ok::<Ty, CompilerError>(Ty::BytesView),
        decreases whole@, 2nat,
    {
        if (items.len() - 1) != 1 {
            return Err(CompilerError::new(
                CompileErrorKind::Parse,
                "vec_u8.as_view expects 1 arg".to_string(),
            ));
        }
        proof {
            lemma_child(whole@, items@, 1);
        }
        let v_ty = self.emit_expr(&items[1])?;
        if v_ty != Ty::VecU8 {
            return Err(CompilerError::new(
                CompileErrorKind::Typing,
                "vec_u8.as_view expects vec_u8".to_string(),
            ));
        }
        let cap = self.f.new_i32_local();
        let len = self.f.new_i32_local();
        let data = self.f.new_i32_local();
        self.f.push(Instr::LocalSet(cap));
        self.f.push(Instr::LocalSet(len));
        self.f.push(Instr::LocalSet(data));
        self.f.push(Instr::LocalGet(data));
        self.f.push(Instr::LocalGet(len));
        Ok(Ty::BytesView)
    }

    fn emit_vec_u8_into_bytes(&mut self, whole: &Expr, items: &Vec<Expr>) -> (r: Result<Ty, CompilerError>)
        requires
            old(self).wf(),
            whole@ matches ExprV::List(vs, _) && vs == view_exprs(items@),
            items@.len() >= 1,
        ensures
            final(self).wf(),
            instrs_grow(old(self).f.body@, final(self).f.body@),
            r is Ok ==> final(self).env@.len() == old(self).env@.len(),
            r matches Ok(t) ==> t == Ty::Bytes,
            items@.len() != 2 ==> (r matches Err(e) && e.kind == CompileErrorKind::Parse && e.message@ == "vec_u8.into_bytes expects 1 arg"@),
            items@.len() != 2 ==> *final(self) == *old(self),
            (items@.len() == 2 && atom_is(old(self).env@, items@[1]@, Ty::VecU8)) ==> r == Ok::<Ty, CompilerError>(Ty::Bytes),
        decreases whole@, 2nat,
    {
        if (items.len() - 1) != 1 {
            return Err(CompilerError::new(
                CompileErrorKind::Parse,
                "vec_u8.into_bytes expects 1 arg".to_string(),
            ));
        }
        proof {
            lemma_child(whole@, items@, 1);
        }
        let v_ty = self.emit_expr(&items[1])?;
        if v_ty != Ty::VecU8 {
            return Err(CompilerError::new(
                CompileErrorKind::Typing,
                "vec_u8.into_bytes expects vec_u8".to_string(),
            ));
        }
        let cap = self.f.new_i32_local();
        let len = self.f.new_i32_local();
        let data = self.f.new_i32_local();
        self.f.push(Instr::LocalSet(cap));
        self.f.push(Instr::LocalSet(len));
        self.f.push(Instr::LocalSet(data));
        self.f.push(Instr::LocalGet(data));
        self.f.push(Instr::LocalGet(len));
        Ok(Ty::Bytes)
    }

    fn emit_i32_binop(&mut self, whole: &Expr, items: &Vec<Expr>, op: Instr) -> (r: Result<Ty, CompilerError>)
        requires
            old(self).wf(),
            whole@ matches ExprV::List(vs, _) && vs == view_exprs(items@),
            items@.len() >= 1,
        ensures
            final(self).wf(),
            instrs_grow(old(self).f.body@, final(self).f.body@),
            r is Ok ==> final(self).env@.len() == old(self).env@.len(),
            r matches Ok(t) ==> t == Ty::I32,
            items@.len() != 3 ==> (r matches Err(e) && e.kind == CompileErrorKind::Parse && e.message@ == "binary operator expects 2 args"@),
            items@.len() != 3 ==> *final(self) == *old(self),
            (items@.len() == 3 && atom_is(old(self).env@, items@[1]@, Ty::I32) && atom_is(old(self).env@, items@[2]@, Ty::I32)) ==> r == Ok::<Ty, CompilerError>(Ty::I32),
            (items@.len() == 3 && atom_is(old(self).env@, items@[1]@, Ty::I32) && atom_is(
                old(self).env@,
                items@[2]@,
                Ty::I32,
            )) ==> final(self).f.body@ == old(self).f.body@ + atom_code(old(self).env@, items@[1]@) + atom_code(
                old(self).env@,
                items@[2]@,
            ) + seq![op],
        decreases whole@, 1nat,
    {
        if (items.len() - 1) != 2 {
            return Err(CompilerError::new(
                CompileErrorKind::Parse,
                "binary operator expects 2 args".to_string(),
            ));
        }
        proof {
            lemma_child(whole@, items@, 1);
        }
        let a_ty = self.emit_expr(&items[1])?;
        proof {
            lemma_child(whole@, items@, 2);
        }
        let b_ty = self.emit_expr(&items[2])?;
        if a_ty != Ty::I32 || b_ty != Ty::I32 {
            return Err(CompilerError::new(
                CompileErrorKind::Typing,
                "binary operator expects (i32, i32)".to_string(),
            ));
        }
        let ghost pre = self.f.body@;
        self.f.push(op);
        proof {
            assert(self.f.body@ =~= pre + seq![op]);
        }
        Ok(Ty::I32)
    }

    fn emit_i32_cmp(&mut self, whole: &Expr, items: &Vec<Expr>, op: Instr) -> (r: Result<Ty, CompilerError>)
        requires
            old(self).wf(),
            whole@ matches ExprV::List(vs, _) && vs == view_exprs(items@),
            items@.len() >= 1,
        ensures
            final(self).wf(),
            instrs_grow(old(self).f.body@, final(self).f.body@),
            r is Ok ==> final(self).env@.len() == old(self).env@.len(),
            (items@.len() == 3 && atom_is(old(self).env@, items@[1]@, Ty::I32) && atom_is(
                old(self).env@,
                items@[2]@,
                Ty::I32,
            )) ==> r == Ok::<Ty, CompilerError>(Ty::I32) && final(self).f.body@ == old(self).f.body@ + atom_code(
                old(self).env@,
                items@[1]@,
            ) + atom_code(old(self).env@, items@[2]@) + seq![op],
        decreases whole@, 2nat,
    {
        self.emit_i32_binop(whole, items, op)
    }

    fn emit_i32_logic_and(&mut self, whole: &Expr, items: &Vec<Expr>) -> (r: Result<Ty, CompilerError>)
        requires
            old(self).wf(),
            whole@ matches ExprV::List(vs, _) && vs == view_exprs(items@),
            items@.len() >= 1,
        ensures
            final(self).wf(),
            instrs_grow(old(self).f.body@, final(self).f.body@),
            r is Ok ==> final(self).env@.len() == old(self).env@.len(),
            r matches Ok(t) ==> t == Ty::I32,
            items@.len() != 3 ==> (r matches Err(e) && e.kind == CompileErrorKind::Parse && e.message@ == "&& expects 2 args"@),
            items@.len() != 3 ==> *final(self) == *old(self),
            (items@.len() == 3 && atom_is(old(self).env@, items@[1]@, Ty::I32) && atom_is(old(self).env@, items@[2]@, Ty::I32)) ==> r == Ok::<Ty, CompilerError>(Ty::I32),
        decreases whole@, 2nat,
    {
        if (items.len() - 1) != 2 {
            return Err(CompilerError::new(
                CompileErrorKind::Parse,
                "&& expects 2 args".to_string(),
            ));
        }
        proof {
            lemma_child(whole@, items@, 1);
        }
        let a_ty = self.emit_expr(&items[1])?;
        if a_ty != Ty::I32 {
            return Err(CompilerError::new(
                CompileErrorKind::Typing,
                "&& expects (i32, i32)".to_string(),
            ));
        }
        // if a != 0 then evaluate b else 0; normalize to 0/1.
        self.f.push(Instr::I32Eqz);
        self.f.push(Instr::If);
        self.f.push(Instr::I32Const(0));
        self.f.push(Instr::Else);
        proof {
            lemma_child(whole@, items@, 2);
        }
        let b_ty = self.emit_expr(&items[2])?;
        if b_ty != Ty::I32 {
            return Err(CompilerError::new(
                CompileErrorKind::Typing,
                "&& expects (i32, i32)".to_string(),
            ));
        }
        self.f.push(Instr::I32Eqz);
        self.f.push(Instr::I32Eqz);
        self.f.push(Instr::End);
        Ok(Ty::I32)
    }

    fn emit_i32_logic_or(&mut self, whole: &Expr, items: &Vec<Expr>) -> (r: Result<Ty, CompilerError>)
        requires
            old(self).wf(),
            whole@ matches ExprV::List(vs, _) && vs == view_exprs(items@),
            items@.len() >= 1,
        ensures
            final(self).wf(),
            instrs_grow(old(self).f.body@, final(self).f.body@),
            r is Ok ==> final(self).env@.len() == old(self).env@.len(),
            r matches Ok(t) ==> t == Ty::I32,
            items@.len() != 3 ==> (r matches Err(e) && e.kind == CompileErrorKind::Parse && e.message@ == "|| expects 2 args"@),
            items@.len() != 3 ==> *final(self) == *old(self),
            (items@.len() == 3 && atom_is(old(self).env@, items@[1]@, Ty::I32) && atom_is(old(self).env@, items@[2]@, Ty::I32)) ==> r == Ok::<Ty, CompilerError>(Ty::I32),
        decreases whole@, 2nat,
    {
        if (items.len() - 1) != 2 {
            return Err(CompilerError::new(
                CompileErrorKind::Parse,
                "|| expects 2 args".to_string(),
            ));
        }
        proof {
            lemma_child(whole@, items@, 1);
        }
        let a_ty = self.emit_expr(&items[1])?;
        if a_ty != Ty::I32 {
            return Err(CompilerError::new(
                CompileErrorKind::Typing,
                "|| expects (i32, i32)".to_string(),
            ));
        }
        // if a != 0 then 1 else evaluate b; normalize to 0/1.
        self.f.push(Instr::I32Eqz);
        self.f.push(Instr::If);
        proof {
            lemma_child(whole@, items@, 2);
        }
        let b_ty = self.emit_expr(&items[2])?;
        if b_ty != Ty::I32 {
            return Err(CompilerError::new(
                CompileErrorKind::Typing,
                "|| expects (i32, i32)".to_string(),
            ));
        }
        self.f.push(Instr::I32Eqz);
        self.f.push(Instr::I32Eqz);
        self.f.push(Instr::Else);
        self.f.push(Instr::I32Const(1));
        self.f.push(Instr::End);
        Ok(Ty::I32)
    }
}


/// A function of the planned module: its flattened signature, its locals as
/// `(count, type)` runs and its instructions.
#[derive(Debug)]
pub struct WasmFuncPlan {
    pub params: Vec<ValKind>,
    pub results: Vec<ValKind>,
    pub locals: Vec<(u32, ValKind)>,
    pub body: Vec<Instr>,
}

/// The module a pure-solve program lowers to. Function 0 is the bump
/// allocator, functions `1..=n` the program's functions in order, `n + 1`
/// the solve expression and `n + 2` the exported `x07_solve_v2` entry. The
/// memory has the given page limits; the data segment starts at address 0
/// and `data_end` (its padded length) initialises the five `i32` globals
/// (data end, heap base, then the mutable heap base, pointer and end).
#[derive(Debug)]
pub struct WasmModulePlan {
    pub funcs: Vec<WasmFuncPlan>,
    pub initial_pages: u32,
    pub max_pages: u32,
    pub data: Vec<u8>,
    pub data_end: u32,
    pub entry_fn: u32,
}

/// The parameter types of a definition, in order.
pub open spec fn param_tys(ps: Seq<FunctionParam>) -> Seq<Ty> {
    Seq::new(ps.len(), |i: int| ps[i].ty)
}

fn param_types(params: &Vec<FunctionParam>) -> (r: Vec<Ty>)
    ensures
        r@ == param_tys(params@),
{
    let mut out: Vec<Ty> = Vec::new();
    let mut i: usize = 0;
    while i < params.len()
        invariant
            i <= params.len(),
            out@ == param_tys(params@).take(i as int),
        decreases params.len() - i,
    {
        out.push(params[i].ty);
        i = i + 1;
        assert(out@ =~= param_tys(params@).take(i as int));
    }
    assert(out@ =~= param_tys(params@));
    out
}

/// `body` is a complete function body: it ends with `end`.
pub open spec fn body_closed(body: Seq<Instr>) -> bool {
    body.len() >= 1 && body.last() == Instr::End
}

impl ModuleCtx {
    fn placeholder() -> (r: Self)
        ensures
            r.wf(),
            r.func_indices@.len() == 0,
            r.func_sigs@.len() == 0,
            r.features.enabled@.len() == 0,
            r.data.bytes@.len() == 0,
            r.data.offsets@.len() == 0,
            r.rt_alloc_fn == 0,
            r.solve_fn == 0,
            r.heap_base_global == 0,
            r.heap_ptr_global == 0,
            r.heap_end_global == 0,
    {
        ModuleCtx {
            func_indices: Vec::new(),
            func_sigs: Vec::new(),
            features: crate::wasm_emit::features::WasmFeatureSetV1 { enabled: Vec::new() },
            data: DataBuilder::new(),
            rt_alloc_fn: 0,
            solve_fn: 0,
            heap_base_global: 0,
            heap_ptr_global: 0,
            heap_end_global: 0,
        }
    }
}

/// A parameter type that lowering binds to locals.
pub open spec fn lowered_param_ty(t: Ty) -> bool {
    t == Ty::I32 || t == Ty::Bytes || t == Ty::BytesView || t == Ty::VecU8
}

/// Parameters that lowering can bind after the bindings of `scope`: each of
/// a lowered type, none named in `scope`, no two with one name.
pub open spec fn params_bindable(scope: Seq<(String, Binding)>, ps: Seq<FunctionParam>) -> bool {
    &&& forall|j: int|
        0 <= j < ps.len() ==> lowered_param_ty((#[trigger] ps[j]).ty) && scope_binding(scope, ps[j].name@) is None
    &&& forall|a: int, b: int| 0 <= a < b < ps.len() ==> (#[trigger] ps[a]).name@ != (#[trigger] ps[b]).name@
}

proof fn lemma_scope_binding_at(scope: Seq<(String, Binding)>, name: Seq<char>, k: int)
    requires
        0 <= k < scope.len(),
        scope[k].0@ == name,
        forall|m: int| k < m < scope.len() ==> (#[trigger] scope[m]).0@ != name,
    ensures
        scope_binding(scope, name) == Some(scope[k].1),
    decreases scope.len(),
{
    if k < scope.len() - 1 {
        assert(scope[scope.len() - 1].0@ != name);
        assert(scope.drop_last()[k] == scope[k]);
        assert forall|m: int| k < m < scope.drop_last().len() implies (#[trigger] scope.drop_last()[m]).0@ != name by {
            assert(scope.drop_last()[m] == scope[m]);
        }
        lemma_scope_binding_at(scope.drop_last(), name, k);
    }
}

/// Binds the parameters to their locals, lowers the body and closes it.
fn lower_defn(e: &mut ExprEmitter, def: &FunctionDef) -> (r: Result<(), CompilerError>)
    requires
        old(e).wf(),
    ensures
        final(e).wf(),
        r is Ok ==> body_closed(final(e).f.body@),
        params_bindable(old(e).env@.last()@, def.params@) ==> (def.body@ is Int && def.ret_ty == Ty::I32 ==> r is Ok),
        params_bindable(old(e).env@.last()@, def.params@) ==> (forall|k: int|
            0 <= k < def.params@.len() && expr_ident(def.body@) == Some((#[trigger] def.params@[k]).name@)
                && def.params@[k].ty == def.ret_ty ==> r is Ok),
        params_bindable(old(e).env@.last()@, def.params@) && lowerable_body(*def) ==> final(e).module == old(
            e,
        ).module && final(e).f.locals == old(e).f.locals,
        params_bindable(old(e).env@.last()@, def.params@) ==> (lowered_code(*def) matches Some(c)
            ==> final(e).f.body@ == old(e).f.body@ + c),
{
    let ghost good = params_bindable(old(e).env@.last()@, def.params@);
    let ghost ps = def.params@;
    let ghost fits = width_before(ps, ps.len() as int) <= u32::MAX;
    let ghost l0 = old(e).env@.last()@.len();
    let mut cur_local: u32 = 0;
    let mut i: usize = 0;
    while i < def.params.len()
        invariant
            e.wf(),
            i <= def.params.len(),
            e.env@.len() == old(e).env@.len(),
            e.f == old(e).f,
            e.module == old(e).module,
            good == params_bindable(old(e).env@.last()@, def.params@),
            l0 == old(e).env@.last()@.len(),
            good ==> e.env@.last()@.len() == l0 + i,
            good ==> forall|m: int| 0 <= m < l0 ==> #[trigger] e.env@.last()@[m] == old(e).env@.last()@[m],
            good ==> forall|j: int|
                0 <= j < i ==> e.env@.last()@[l0 + j].0@ == (#[trigger] def.params@[j]).name@
                    && e.env@.last()@[l0 + j].1.ty == def.params@[j].ty,
            ps == def.params@,
            fits == (width_before(ps, ps.len() as int) <= u32::MAX),
            good && fits ==> cur_local as int == width_before(ps, i as int),
            good && fits ==> forall|j: int|
                0 <= j < i ==> e.env@.last()@[l0 + j].1.locals@ == #[trigger] param_locals(ps, j),
        decreases def.params.len() - i,
    {
        let p = &def.params[i];
        proof {
            lemma_width_mono(ps, i as int + 1, ps.len() as int);
        }
        proof {
            if good {
                let sc = e.env@.last()@;
                let nm = def.params@[i as int].name@;
                assert forall|m: int| 0 <= m < sc.len() implies (#[trigger] sc[m]).0@ != nm by {
                    if m < l0 {
                        if old(e).env@.last()@[m].0@ == nm {
                            lemma_scope_binding_some(old(e).env@.last()@, nm, m);
                        }
                    } else {
                        let j = m - l0;
                        assert(def.params@[j].name@ != def.params@[i as int].name@);
                    }
                }
                lemma_scope_binding_none(sc, nm);
            }
        }
        let locals: Vec<u32> = match p.ty {
            Ty::I32 => {
                let l = cur_local;
                cur_local = cur_local.wrapping_add(1);
                vec![l]
            },
            Ty::Bytes | Ty::BytesView => {
                let a = cur_local;
                let b = cur_local.wrapping_add(1);
                cur_local = cur_local.wrapping_add(2);
                vec![a, b]
            },
            Ty::VecU8 => {
                let a = cur_local;
                let b = cur_local.wrapping_add(1);
                let c = cur_local.wrapping_add(2);
                cur_local = cur_local.wrapping_add(3);
                vec![a, b, c]
            },
            other => {
                let m = concat_str("wasm backend: unsupported param type: ", ty_debug(other));
                return Err(CompilerError::new(CompileErrorKind::Unsupported, m));
            },
        };
        proof {
            if good && fits {
                assert(locals@ =~= param_locals(ps, i as int));
                assert(cur_local as int == width_before(ps, i as int + 1));
            }
        }
        let ghost before = e.env@;
        let ghost new_locals = locals@;
        e.bind(p.name.clone(), Binding { ty: p.ty, locals })?;
        proof {
            if good && fits {
                assert forall|j: int| 0 <= j < i + 1 implies e.env@.last()@[l0 + j].1.locals@ == #[trigger] param_locals(
                    ps,
                    j,
                ) by {
                    if j < i {
                        assert(e.env@.last()@[l0 + j] == before.last()@[l0 + j]);
                    }
                }
            }
            if good {
                assert forall|m: int| 0 <= m < l0 implies #[trigger] e.env@.last()@[m] == old(e).env@.last()@[m] by {
                    assert(e.env@.last()@[m] == before.last()@[m]);
                }
                assert forall|j: int| 0 <= j < i + 1 implies e.env@.last()@[l0 + j].0@ == (
                #[trigger] def.params@[j]).name@ && e.env@.last()@[l0 + j].1.ty == def.params@[j].ty by {
                    if j < i {
                        assert(e.env@.last()@[l0 + j] == before.last()@[l0 + j]);
                    }
                }
            }
        }
        i = i + 1;
    }
    proof {
        if good {
            let sc = e.env@.last()@;
            assert forall|k: int|
                0 <= k < def.params@.len() && expr_ident(def.body@) == Some((#[trigger] def.params@[k]).name@)
                    implies atom_ty(e.env@, def.body@) == Some(def.params@[k].ty) by {
                let nm = def.params@[k].name@;
                assert forall|m: int| l0 + k < m < sc.len() implies (#[trigger] sc[m]).0@ != nm by {
                    let j = m - l0;
                    assert(def.params@[j].name@ == sc[m].0@);
                    assert(def.params@[k].name@ != def.params@[j].name@);
                }
                lemma_scope_binding_at(sc, nm, l0 + k);
            }
        }
    }
    proof {
        if good && lowered_code(*def) is Some && def.body@ is Ident {
            let n = def.body@->Ident_0;
            let k = choose|k: int| #[trigger] param_named(ps, k, n, def.ret_ty);
            let sc = e.env@.last()@;
            assert forall|m: int| l0 + k < m < sc.len() implies (#[trigger] sc[m]).0@ != n by {
                let j = m - l0;
                assert(def.params@[j].name@ == sc[m].0@);
                assert(def.params@[k].name@ != def.params@[j].name@);
            }
            lemma_scope_binding_at(sc, n, l0 + k);
            assert(atom_code(e.env@, def.body@) == local_gets(param_locals(ps, k)));
        }
    }
    let ghost pre_body = e.f.body@;
    let ty = e.emit_expr(&def.body)?;
    if ty != def.ret_ty && ty != Ty::Never {
        let m1 = concat_str("function return type mismatch: fn=", debug_str(def.name.as_str()).as_str());
        let m2 = concat_str(m1.as_str(), " got=");
        let m3 = concat_str(m2.as_str(), ty_debug(ty));
        let m4 = concat_str(m3.as_str(), " want=");
        let m5 = concat_str(m4.as_str(), ty_debug(def.ret_ty));
        return Err(CompilerError::new(CompileErrorKind::Typing, m5));
    }
    e.f.push(Instr::End);
    proof {
        if good && lowered_code(*def) is Some {
            assert(e.f.body@ =~= old(e).f.body@ + lowered_code(*def)->0);
        }
    }
    Ok(())
}

/// A definition whose lowering is owed: its parameters can be bound in a
/// fresh scope, and its body is an integer literal returned as `i32`, or
/// names a parameter of the return type.
pub open spec fn lowerable_defn(def: FunctionDef) -> bool {
    &&& params_bindable(Seq::empty(), def.params@)
    &&& lowerable_body(def)
}

/// The body is an integer literal returned as `i32`, or names a parameter
/// of the return type.
pub open spec fn lowerable_body(def: FunctionDef) -> bool {
    ||| (def.body@ is Int && def.ret_ty == Ty::I32)
    ||| exists|k: int|
        0 <= k < def.params@.len() && expr_ident(def.body@) == Some((#[trigger] def.params@[k]).name@)
            && def.params@[k].ty == def.ret_ty
}

/// How many `i32` locals a lowered parameter of type `t` takes.
pub open spec fn ty_width(t: Ty) -> nat {
    if t == Ty::I32 {
        1
    } else if t == Ty::Bytes || t == Ty::BytesView {
        2
    } else if t == Ty::VecU8 {
        3
    } else {
        0
    }
}

/// The locals taken by the parameters before parameter `k`.
pub open spec fn width_before(ps: Seq<FunctionParam>, k: int) -> nat
    decreases k,
{
    if k <= 0 {
        0
    } else {
        width_before(ps, k - 1) + ty_width(ps[k - 1].ty)
    }
}

/// The locals of parameter `k`: numbered on from those before it.
pub open spec fn param_locals(ps: Seq<FunctionParam>, k: int) -> Seq<u32> {
    Seq::new(ty_width(ps[k].ty), |j: int| (width_before(ps, k) + j) as u32)
}

/// Parameter `k` is named `n` and has the type `t`.
pub open spec fn param_named(ps: Seq<FunctionParam>, k: int, n: Seq<char>, t: Ty) -> bool {
    0 <= k < ps.len() && ps[k].name@ == n && ps[k].ty == t
}

/// The code a definition lowers to, where it is fixed by its form: an
/// integer literal returned as `i32` pushes the constant and ends; a body
/// naming a parameter of the return type reads that parameter's locals and
/// ends (where the locals are numbered within `u32`).
pub open spec fn lowered_code(def: FunctionDef) -> Option<Seq<Instr>> {
    let ps = def.params@;
    match def.body@ {
        ExprV::Int(v, _) => if def.ret_ty == Ty::I32 {
            Some(seq![Instr::I32Const(v), Instr::End])
        } else {
            None
        },
        ExprV::Ident(n, _) => if width_before(ps, ps.len() as int) <= u32::MAX && exists|k: int|
            #[trigger] param_named(ps, k, n, def.ret_ty) {
            let k = choose|k: int| #[trigger] param_named(ps, k, n, def.ret_ty);
            Some(local_gets(param_locals(ps, k)) + seq![Instr::End])
        } else {
            None
        },
        _ => None,
    }
}

proof fn lemma_width_mono(ps: Seq<FunctionParam>, a: int, b: int)
    requires
        0 <= a <= b,
    ensures
        width_before(ps, a) <= width_before(ps, b),
    decreases b - a,
{
    if a < b {
        lemma_width_mono(ps, a, b - 1);
    }
}

proof fn lemma_flat_types_lowered(tys: Seq<Ty>)
    requires
        forall|i: int| 0 <= i < tys.len() ==> lowered_param_ty(#[trigger] tys[i]),
    ensures
        flat_types(tys) is Some,
    decreases tys.len(),
{
    if tys.len() > 0 {
        assert forall|i: int| 0 <= i < tys.drop_last().len() implies lowered_param_ty(#[trigger] tys.drop_last()[i]) by {
            assert(tys.drop_last()[i] == tys[i]);
        }
        lemma_flat_types_lowered(tys.drop_last());
        assert(lowered_param_ty(tys[tys.len() - 1]));
    }
}

/// Lowers one definition against the module; the module keeps what the
/// body interned in the data segment.
pub fn compile_defn(module_ctx: &mut ModuleCtx, def: &FunctionDef) -> (r: Result<FuncCode, CompilerError>)
    requires
        old(module_ctx).wf(),
    ensures
        final(module_ctx).wf(),
        flat_types(param_tys(def.params@)) is None ==> (r matches Err(e) && e.kind
            == CompileErrorKind::Unsupported),
        r matches Ok(f) ==> body_closed(f.body@) && flat_types(param_tys(def.params@)) is Some,
        lowerable_defn(*def) ==> (r matches Ok(f) && *final(module_ctx) == *old(module_ctx) && f.locals@.len() == 0
            && (lowered_code(*def) matches Some(c) ==> f.body@ == c)),
{
    let tys = param_types(&def.params);
    proof {
        if lowerable_defn(*def) {
            assert forall|i: int| 0 <= i < tys@.len() implies lowered_param_ty(#[trigger] tys@[i]) by {
                assert(tys@[i] == def.params@[i].ty);
                assert(lowered_param_ty(def.params@[i].ty));
            }
            lemma_flat_types_lowered(tys@);
        }
    }
    let flat = flatten_valtypes(&tys)?;
    let f = FuncCode::new(flat.len() as u32);
    let mut m = ModuleCtx::placeholder();
    std::mem::swap(&mut m, module_ctx);
    let mut e = ExprEmitter::new(m, f);
    proof {
        assert(e.env@.last()@ =~= Seq::<(String, Binding)>::empty());
    }
    let r = lower_defn(&mut e, def);
    let ExprEmitter { module, f, env: _ } = e;
    *module_ctx = module;
    match r {
        Ok(()) => Ok(f),
        Err(err) => Err(err),
    }
}

/// The bump allocator `rt_alloc(size, align) -> ptr`: zero-size requests get
/// the heap base; otherwise the heap pointer is aligned up, advanced by
/// `size` (trapping past the heap end) and the block is zero-filled.
fn rt_alloc_code(heap_base_global: u32, heap_ptr_global: u32, heap_end_global: u32) -> (f: FuncCode)
    ensures
        f.params_flat_len == 2,
        f.locals@.len() == 5,
        body_closed(f.body@),
{
    let mut f = FuncCode::new(2);
    let size = 0u32;
    let align = 1u32;
    let out_ptr = f.new_i32_local();
    let cur = f.new_i32_local();
    let mask = f.new_i32_local();
    let aligned = f.new_i32_local();
    let new_ptr = f.new_i32_local();
    let mut c: Vec<Instr> = Vec::new();
    // size == 0 => heap base
    c.push(Instr::LocalGet(size));
    c.push(Instr::I32Eqz);
    c.push(Instr::If);
    c.push(Instr::GlobalGet(heap_base_global));
    c.push(Instr::LocalSet(out_ptr));
    c.push(Instr::Else);
    c.push(Instr::GlobalGet(heap_ptr_global));
    c.push(Instr::LocalSet(cur));
    // mask = align - 1; aligned = (cur + mask) & !mask
    c.push(Instr::LocalGet(align));
    c.push(Instr::I32Const(1));
    c.push(Instr::I32Sub);
    c.push(Instr::LocalSet(mask));
    c.push(Instr::LocalGet(cur));
    c.push(Instr::LocalGet(mask));
    c.push(Instr::I32Add);
    c.push(Instr::LocalGet(mask));
    c.push(Instr::I32Const(-1));
    c.push(Instr::I32Xor);
    c.push(Instr::I32And);
    c.push(Instr::LocalSet(aligned));
    // new_ptr = aligned + size, trapping past the heap end
    c.push(Instr::LocalGet(aligned));
    c.push(Instr::LocalGet(size));
    c.push(Instr::I32Add);
    c.push(Instr::LocalSet(new_ptr));
    c.push(Instr::LocalGet(new_ptr));
    c.push(Instr::GlobalGet(heap_end_global));
    c.push(Instr::I32LeU);
    c.push(Instr::If);
    c.push(Instr::Else);
    c.push(Instr::Unreachable);
    c.push(Instr::End);
    c.push(Instr::LocalGet(new_ptr));
    c.push(Instr::GlobalSet(heap_ptr_global));
    // zero the block
    c.push(Instr::LocalGet(aligned));
    c.push(Instr::I32Const(0));
    c.push(Instr::LocalGet(size));
    c.push(Instr::MemoryFill);
    c.push(Instr::LocalGet(aligned));
    c.push(Instr::LocalSet(out_ptr));
    c.push(Instr::End);
    c.push(Instr::LocalGet(out_ptr));
    c.push(Instr::End);
    f.push_all(&mut c);
    f
}

/// The exported entry `x07_solve_v2(retptr, arena_ptr, arena_cap, input_ptr,
/// input_len)`: points the heap at the arena, runs the solve function and
/// stores its `(ptr, len)` result at `retptr`.
fn entry_code(m: &ModuleCtx) -> (f: FuncCode)
    ensures
        f.params_flat_len == 5,
        f.locals@.len() == 2,
        body_closed(f.body@),
{
    let mut f = FuncCode::new(5);
    let retptr = 0u32;
    let arena_ptr = 1u32;
    let arena_cap = 2u32;
    let input_ptr = 3u32;
    let input_len = 4u32;
    let mut c: Vec<Instr> = Vec::new();
    c.push(Instr::LocalGet(arena_ptr));
    c.push(Instr::GlobalSet(m.heap_base_global));
    c.push(Instr::LocalGet(arena_ptr));
    c.push(Instr::GlobalSet(m.heap_ptr_global));
    c.push(Instr::LocalGet(arena_ptr));
    c.push(Instr::LocalGet(arena_cap));
    c.push(Instr::I32Add);
    c.push(Instr::GlobalSet(m.heap_end_global));
    c.push(Instr::LocalGet(input_ptr));
    c.push(Instr::LocalGet(input_len));
    c.push(Instr::Call(m.solve_fn));
    let out_len = f.new_i32_local();
    let out_ptr = f.new_i32_local();
    c.push(Instr::LocalSet(out_len));
    c.push(Instr::LocalSet(out_ptr));
    c.push(Instr::LocalGet(retptr));
    c.push(Instr::LocalGet(out_ptr));
    c.push(Instr::I32Store(MemArgV { offset: 0, align: 2 }));
    c.push(Instr::LocalGet(retptr));
    c.push(Instr::LocalGet(out_len));
    c.push(Instr::I32Store(MemArgV { offset: 4, align: 2 }));
    c.push(Instr::End);
    f.push_all(&mut c);
    f
}

/// The `__x07_solve(input_ptr, input_len) -> bytes` function: `input` is
/// bound to the two parameters as a bytes view.
fn lower_solve(e: &mut ExprEmitter, solve: &Expr) -> (r: Result<(), CompilerError>)
    requires
        old(e).wf(),
    ensures
        final(e).wf(),
        r is Ok ==> body_closed(final(e).f.body@),
        scope_binding(old(e).env@.last()@, "input"@) is None && bytes_lit_form(old(e).module, solve@) ==> r is Ok
            && final(e).f.locals@.len() == old(e).f.locals@.len() + 2,
{
    e.bind("input".to_string(), Binding { ty: Ty::BytesView, locals: vec![0, 1] })?;
    let ty = e.emit_expr(solve)?;
    if ty != Ty::Bytes && ty != Ty::Never {
        let m1 = concat_str("solve expression must return bytes (got ", ty_debug(ty));
        return Err(CompilerError::new(CompileErrorKind::Typing, concat_str(m1.as_str(), ")")));
    }
    e.f.push(Instr::End);
    Ok(())
}

/// The first option or program shape the backend refuses, with the error's
/// kind and message; `None` when it goes on to lower the program.
pub open spec fn emit_precheck(program: Program, options: CompileOptions, mem: WasmMemLimits) -> Option<
    (CompileErrorKind, Seq<char>),
> {
    match mem_limits_spec(mem) {
        Err(m) => Some((CompileErrorKind::Parse, m)),
        Ok(_) => if !options.freestanding {
            Some((CompileErrorKind::Unsupported, "wasm backend currently requires freestanding=true"@))
        } else if !options.world_is_solve_pure {
            Some((CompileErrorKind::Unsupported, "wasm backend currently supports only --world solve-pure"@))
        } else if program.async_functions@.len() > 0 || program.extern_functions@.len() > 0 {
            Some((CompileErrorKind::Unsupported, "wasm backend does not yet support async or extern functions"@))
        } else {
            None
        },
    }
}

/// The shape of a lowered module: function order and signatures, closed
/// bodies, page limits, padded data and the entry index.
pub open spec fn plan_matches(plan: WasmModulePlan, program: Program, mem: WasmMemLimits) -> bool {
    let n = program.functions@.len() as int;
    let fs = plan.funcs@;
    &&& mem_limits_spec(mem) == Ok::<(u32, u32), Seq<char>>((plan.initial_pages, plan.max_pages))
    &&& fs.len() == n + 3
    &&& plan.entry_fn == n + 2
    &&& fs[0].params@.len() == 2 && fs[0].results@.len() == 1
    &&& fs[n + 1].params@.len() == 2 && fs[n + 1].results@.len() == 2
    &&& fs[n + 2].params@.len() == 5 && fs[n + 2].results@.len() == 0
    &&& forall|i: int|
        0 <= i < n ==> flat_types(param_tys(#[trigger] program.functions@[i].params@)) == Some(
            fs[i + 1].params@.len(),
        ) && flat_types(seq![program.functions@[i].ret_ty]) == Some(fs[i + 1].results@.len())
    &&& forall|i: int, j: int|
        0 <= i < j < n ==> (#[trigger] program.functions@[i]).name@ != (#[trigger] program.functions@[j]).name@
    &&& forall|i: int| 0 <= i < fs.len() ==> body_closed((#[trigger] fs[i]).body@) && runs_canonical(fs[i].locals@)
    &&& plan.data@.len() % 16 == 0
    &&& plan.data_end == plan.data@.len() as u32
}

/// What lowering a program promises: the refused options and shapes fail
/// with their own error, and a module that comes out has the planned shape.
pub open spec fn emit_outcome(
    program: Program,
    options: CompileOptions,
    mem: WasmMemLimits,
    r: Result<WasmModulePlan, CompilerError>,
) -> bool {
    match emit_precheck(program, options, mem) {
        Some((k, m)) => (r matches Err(e) && e.kind == k && e.message@ == m && e.diagnostic is None),
        None => (r matches Ok(plan) ==> plan_matches(plan, program, mem)),
    }
}

fn func_plan(params: Vec<ValKind>, results: Vec<ValKind>, f: FuncCode) -> (r: Result<WasmFuncPlan, CompilerError>)
    requires
        body_closed(f.body@),
    ensures
        f.locals@.len() <= 0xffff_ffff ==> (r matches Ok(p) && p.params == params && p.results == results && p.body@
            == f.body@ && runs_canonical(p.locals@) && expand_runs(p.locals@) == f.locals@),
        f.locals@.len() > 0xffff_ffff ==> (r matches Err(e) && e.kind == CompileErrorKind::Internal && e.message@
            == "internal error: too many locals"@),
{
    if f.locals.len() > 0xffff_ffff {
        return Err(CompilerError::new(CompileErrorKind::Internal, "internal error: too many locals".to_string()));
    }
    let locals = encode_locals(&f.locals);
    Ok(WasmFuncPlan { params, results, locals, body: f.body })
}

/// Whether a later definition reuses the name of definition `i`.
fn name_reused_later(fs: &Vec<FunctionDef>, i: usize) -> (r: bool)
    requires
        i < fs@.len(),
    ensures
        r == exists|j: int| i < j < fs@.len() && (#[trigger] fs@[j]).name@ == fs@[i as int].name@,
{
    let n = fs.len();
    let mut j: usize = i + 1;
    while j < n
        invariant
            i < j <= fs@.len(),
            n == fs@.len(),
            forall|k: int| i < k < j ==> (#[trigger] fs@[k]).name@ != fs@[i as int].name@,
        decreases n - j,
    {
        if str_eq(fs[j].name.as_str(), fs[i].name.as_str()) {
            return true;
        }
        j = j + 1;
    }
    false
}


fn i32_kinds(n: usize) -> (r: Vec<ValKind>)
    ensures
        r@.len() == n,
{
    let mut v: Vec<ValKind> = Vec::new();
    let mut i: usize = 0;
    while i < n
        invariant
            i <= n,
            v@.len() == i,
        decreases n - i,
    {
        v.push(ValKind::I32);
        i = i + 1;
    }
    v
}

/// Function `k` of the module gets a signature: a runtime function, or a
/// definition that no later one renames, with flat parameter and result
/// types.
pub open spec fn sig_lowers(program: Program, k: int) -> bool {
    let n = program.functions@.len() as int;
    ||| k == 0 || k == n + 1 || k == n + 2
    ||| 1 <= k <= n && ({
        let d = program.functions@[k - 1];
        &&& forall|j: int| k - 1 < j < n ==> (#[trigger] program.functions@[j]).name@ != d.name@
        &&& flat_types(param_tys(d.params@)) is Some
        &&& flat_types(seq![d.ret_ty]) is Some
    })
}

/// The flattened signature of function `k` of the module: fixed for the
/// runtime functions, from the definition for `1..=n`, where a name that a
/// later definition reuses has no function of its own.
fn func_sig_at(program: &Program, k: usize) -> (r: Result<(Vec<ValKind>, Vec<ValKind>), CompilerError>)
    requires
        k <= program.functions@.len() + 2,
        program.functions@.len() + 3 <= u32::MAX,
    ensures
        ({
            let n = program.functions@.len() as int;
            match r {
                Ok((ps, rs)) => {
                    &&& k == 0 ==> ps@.len() == 2 && rs@.len() == 1
                    &&& k == n + 1 ==> ps@.len() == 2 && rs@.len() == 2
                    &&& k == n + 2 ==> ps@.len() == 5 && rs@.len() == 0
                    &&& 1 <= k <= n ==> ({
                        let d = program.functions@[k - 1];
                        &&& flat_types(param_tys(d.params@)) == Some(ps@.len())
                        &&& flat_types(seq![d.ret_ty]) == Some(rs@.len())
                        &&& forall|j: int| k - 1 < j < n ==> (#[trigger] program.functions@[j]).name@ != d.name@
                    })
                },
                Err(_) => 1 <= k <= n,
            }
        }),
        sig_lowers(*program, k as int) ==> r is Ok,
{
    let n = program.functions.len();
    if k == 0 {
        return Ok((i32_kinds(2), i32_kinds(1)));
    }
    if k == n + 1 {
        return Ok((i32_kinds(2), i32_kinds(2)));
    }
    if k == n + 2 {
        return Ok((i32_kinds(5), i32_kinds(0)));
    }
    let d = &program.functions[k - 1];
    if name_reused_later(&program.functions, k - 1) {
        let m = concat_str("internal error: missing func name for idx=", u64_to_dec(k as u64).as_str());
        return Err(CompilerError::new(CompileErrorKind::Internal, m));
    }
    let ps = flatten_valtypes(&param_types(&d.params))?;
    let rets = vec![d.ret_ty];
    assert(rets@ =~= seq![d.ret_ty]);
    let rs = flatten_valtypes(&rets)?;
    Ok((ps, rs))
}


/// Entry `k` of a planned module, against the program it was lowered from.
pub open spec fn func_entry_ok(program: Program, k: int, fp: WasmFuncPlan) -> bool {
    let n = program.functions@.len() as int;
    &&& body_closed(fp.body@) && runs_canonical(fp.locals@)
    &&& k == 0 ==> fp.params@.len() == 2 && fp.results@.len() == 1
    &&& k == n + 1 ==> fp.params@.len() == 2 && fp.results@.len() == 2
    &&& k == n + 2 ==> fp.params@.len() == 5 && fp.results@.len() == 0
    &&& 1 <= k <= n ==> ({
        let d = program.functions@[k - 1];
        &&& flat_types(param_tys(d.params@)) == Some(fp.params@.len())
        &&& flat_types(seq![d.ret_ty]) == Some(fp.results@.len())
        &&& forall|j: int| k - 1 < j < n ==> (#[trigger] program.functions@[j]).name@ != d.name@
    })
}

fn plan_entry(program: &Program, k: usize, f: FuncCode) -> (r: Result<WasmFuncPlan, CompilerError>)
    requires
        k <= program.functions@.len() + 2,
        program.functions@.len() + 3 <= u32::MAX,
        body_closed(f.body@),
    ensures
        r matches Ok(fp) ==> func_entry_ok(*program, k as int, fp) && fp.body@ == f.body@,
        sig_lowers(*program, k as int) && f.locals@.len() <= 0xffff_ffff ==> r is Ok,
{
    let (ps, rs) = func_sig_at(program, k)?;
    func_plan(ps, rs, f)
}

/// Pads the data segment with zero bytes to a multiple of 16.
fn pad_data(data: &mut Vec<u8>)
    ensures
        final(data)@.len() % 16 == 0,
        final(data)@.len() >= old(data)@.len(),
        final(data)@.take(old(data)@.len() as int) == old(data)@,
{
    let ghost d0 = data@;
    while data.len() % 16 != 0
        invariant
            data@.len() >= d0.len(),
            data@.take(d0.len() as int) == d0,
        decreases (16 - data@.len() % 16) % 16,
    {
        data.push(0u8);
        assert(data@.take(d0.len() as int) =~= d0);
    }
}

/// Every definition is lowerable and no two share a name.
pub open spec fn lowerable_program(program: Program) -> bool {
    let fs = program.functions@;
    &&& forall|i: int| 0 <= i < fs.len() ==> lowerable_defn(#[trigger] fs[i])
    &&& forall|i: int, j: int| 0 <= i < j < fs.len() ==> (#[trigger] fs[i]).name@ != (#[trigger] fs[j]).name@
}

/// What lowering owes a program that passes the checks, whose definitions
/// are lowerable and whose solve expression is a `bytes.lit` form with
/// literals enabled: a plan, in which each definition with a fixed lowering
/// has exactly that body.
pub open spec fn lowering_owed(
    program: Program,
    options: CompileOptions,
    wasm_opts: WasmEmitOptions,
    r: Result<WasmModulePlan, CompilerError>,
) -> bool {
    emit_precheck(program, options, wasm_opts.mem) is None && lowerable_program(program) && bytes_lit_expr(
        program.solve@,
    ) && wasm_opts.features.view_set().contains(WasmFeatureV1::LiteralsV1) ==> (r matches Ok(plan) && forall|i: int|
        0 <= i < program.functions@.len() ==> (lowered_code(#[trigger] program.functions@[i]) matches Some(c)
            ==> plan.funcs@[i + 1].body@ == c))
}

proof fn lemma_sig_lowers(program: Program, k: int)
    requires
        lowerable_program(program),
        1 <= k <= program.functions@.len(),
    ensures
        sig_lowers(program, k),
{
    let d = program.functions@[k - 1];
    assert(lowerable_defn(d));
    let tys = param_tys(d.params@);
    assert forall|i: int| 0 <= i < tys.len() implies lowered_param_ty(#[trigger] tys[i]) by {
        assert(tys[i] == d.params@[i].ty);
        assert(lowered_param_ty(d.params@[i].ty));
    }
    lemma_flat_types_lowered(tys);
    if d.body@ is Int && d.ret_ty == Ty::I32 {
    } else {
        let k2 = choose|k2: int|
            0 <= k2 < d.params@.len() && expr_ident(d.body@) == Some((#[trigger] d.params@[k2]).name@)
                && d.params@[k2].ty == d.ret_ty;
        assert(lowered_param_ty(d.params@[k2].ty));
    }
    lemma_flat_types_lowered(seq![d.ret_ty]);
    assert forall|j: int| k - 1 < j < program.functions@.len() implies (
    #[trigger] program.functions@[j]).name@ != d.name@ by {
        assert(program.functions@[k - 1].name@ != program.functions@[j].name@);
    }
}

/// Lowers a pure-solve program to a module plan: options and program shape
/// are checked first, then every definition, the solve expression and the
/// runtime functions are lowered, and the data segment is padded.
#[verifier::rlimit(60)]
pub(super) fn emit_solve_pure_wasm_v1(
    program: &Program,
    options: &CompileOptions,
    wasm_opts: &WasmEmitOptions,
) -> (r: Result<WasmModulePlan, CompilerError>)
    requires
        program.functions@.len() + 3 <= u32::MAX,
    ensures
        emit_outcome(*program, *options, wasm_opts.mem, r),
        lowering_owed(*program, *options, *wasm_opts, r),
{
    let ghost good = emit_precheck(*program, *options, wasm_opts.mem) is None && lowerable_program(*program)
        && bytes_lit_expr(program.solve@) && wasm_opts.features.view_set().contains(WasmFeatureV1::LiteralsV1);
    let (initial_pages, max_pages) = match validate_mem_limits(&wasm_opts.mem) {
        Ok(p) => p,
        Err(e) => {
            return Err(e);
        },
    };
    if !options.freestanding {
        return Err(
            CompilerError::new(
                CompileErrorKind::Unsupported,
                "wasm backend currently requires freestanding=true".to_string(),
            ),
        );
    }
    if !options.world_is_solve_pure {
        return Err(
            CompilerError::new(
                CompileErrorKind::Unsupported,
                "wasm backend currently supports only --world solve-pure".to_string(),
            ),
        );
    }
    if program.async_functions.len() > 0 || program.extern_functions.len() > 0 {
        return Err(
            CompilerError::new(
                CompileErrorKind::Unsupported,
                "wasm backend does not yet support async or extern functions".to_string(),
            ),
        );
    }
    let n = program.functions.len();
    // Function indices: 0 is the allocator, then the definitions in order.
    let mut func_indices: Vec<(String, u32)> = Vec::new();
    let mut func_sigs: Vec<(String, FuncSig)> = Vec::new();
    let mut i: usize = 0;
    while i < n
        invariant
            i <= n,
            n == program.functions@.len(),
            n + 3 <= u32::MAX,
        decreases n - i,
    {
        let d = &program.functions[i];
        func_indices.push((d.name.clone(), (i + 1) as u32));
        func_sigs.push((d.name.clone(), FuncSig { params: param_types(&d.params), ret: d.ret_ty }));
        i = i + 1;
    }
    let mut module_ctx = ModuleCtx {
        func_indices,
        func_sigs,
        features: wasm_opts.features.copied(),
        data: DataBuilder::new(),
        rt_alloc_fn: 0,
        solve_fn: (n + 1) as u32,
        heap_base_global: 2,
        heap_ptr_global: 3,
        heap_end_global: 4,
    };
    let mut bodies: Vec<FuncCode> = Vec::new();
    bodies.push(rt_alloc_code(module_ctx.heap_base_global, module_ctx.heap_ptr_global, module_ctx.heap_end_global));
    let ghost m0 = module_ctx;
    let mut i: usize = 0;
    while i < n
        invariant
            i <= n,
            n == program.functions@.len(),
            emit_precheck(*program, *options, wasm_opts.mem) is None,
            module_ctx.wf(),
            bodies@.len() == i + 1,
            forall|k: int| 0 <= k < bodies@.len() ==> body_closed((#[trigger] bodies@[k]).body@),
            good == (emit_precheck(*program, *options, wasm_opts.mem) is None && lowerable_program(*program)
                && bytes_lit_expr(program.solve@) && wasm_opts.features.view_set().contains(
                WasmFeatureV1::LiteralsV1,
            )),
            m0.features.enabled@ == wasm_opts.features.enabled@,
            good ==> module_ctx == m0,
            good ==> forall|m: int| 0 <= m < bodies@.len() ==> (#[trigger] bodies@[m]).locals@.len() <= 5,
            good ==> forall|m: int|
                0 <= m < i ==> (lowered_code(#[trigger] program.functions@[m]) matches Some(c) ==> bodies@[m
                    + 1].body@ == c),
        decreases n - i,
    {
        proof {
            if good {
                assert(lowerable_defn(program.functions@[i as int]));
            }
        }
        let f = compile_defn(&mut module_ctx, &program.functions[i])?;
        bodies.push(f);
        i = i + 1;
    }
    let mut e = ExprEmitter::new(module_ctx, FuncCode::new(2));
    proof {
        assert(e.env@.last() == e.env@[0]);
        assert(scope_binding(e.env@.last()@, "input"@) is None);
    }
    let solved = lower_solve(&mut e, &program.solve);
    let ExprEmitter { module: module_ctx, f: solve_code, env: _ } = e;
    match solved {
        Ok(()) => {},
        Err(err) => {
            return Err(err);
        },
    }
    bodies.push(solve_code);
    bodies.push(entry_code(&module_ctx));
    let mut data = module_ctx.data.bytes;
    pad_data(&mut data);
    let data_end = data.len() as u32;
    let ghost all = bodies@;
    let mut funcs: Vec<WasmFuncPlan> = Vec::new();
    let mut k: usize = 0;
    while k < n + 3
        invariant
            k <= n + 3,
            n == program.functions@.len(),
            n + 3 <= u32::MAX,
            emit_precheck(*program, *options, wasm_opts.mem) is None,
            all.len() == n + 3,
            bodies@ == all.subrange(k as int, n + 3),
            forall|m: int| 0 <= m < all.len() ==> body_closed((#[trigger] all[m]).body@),
            funcs@.len() == k,
            forall|m: int| 0 <= m < k ==> func_entry_ok(*program, m, #[trigger] funcs@[m]),
            good ==> forall|m: int| 0 <= m < all.len() ==> (#[trigger] all[m]).locals@.len() <= 5,
            good ==> forall|m: int|
                0 <= m < n ==> (lowered_code(#[trigger] program.functions@[m]) matches Some(c) ==> all[m
                    + 1].body@ == c),
            good ==> forall|m: int|
                0 <= m < n && m + 1 < k ==> (lowered_code(#[trigger] program.functions@[m]) matches Some(c)
                    ==> funcs@[m + 1].body@ == c),
            good == (emit_precheck(*program, *options, wasm_opts.mem) is None && lowerable_program(*program)
                && bytes_lit_expr(program.solve@) && wasm_opts.features.view_set().contains(
                WasmFeatureV1::LiteralsV1,
            )),
        decreases n + 3 - k,
    {
        assert(bodies@[0] == all[k as int]);
        let f = bodies.remove(0);
        proof {
            if good {
                assert(f == all[k as int]);
                assert(f.locals@.len() <= 5);
                if 1 <= k <= n {
                    lemma_sig_lowers(*program, k as int);
                }
            }
        }
        let fp = plan_entry(program, k, f)?;
        let ghost f0 = funcs@;
        funcs.push(fp);
        proof {
            assert(bodies@ =~= all.subrange(k + 1, n + 3));
            if good {
                assert forall|m: int|
                    0 <= m < n && m + 1 < k + 1 implies (lowered_code(#[trigger] program.functions@[m]) matches Some(
                    c,
                ) ==> funcs@[m + 1].body@ == c) by {
                    if m + 1 < k {
                        assert(funcs@[m + 1] == f0[m + 1]);
                    }
                }
            }
        }
        k = k + 1;
    }
    proof {
        let fs = funcs@;
        let ni = n as int;
        assert(func_entry_ok(*program, 0, fs[0]));
        assert(func_entry_ok(*program, ni + 1, fs[ni + 1]));
        assert(func_entry_ok(*program, ni + 2, fs[ni + 2]));
        assert forall|m: int| 0 <= m < ni implies flat_types(param_tys(#[trigger] program.functions@[m].params@))
            == Some(fs[m + 1].params@.len()) && flat_types(seq![program.functions@[m].ret_ty]) == Some(
            fs[m + 1].results@.len(),
        ) by {
            assert(func_entry_ok(*program, m + 1, fs[m + 1]));
        }
        assert forall|m: int, j: int| 0 <= m < j < ni implies (#[trigger] program.functions@[m]).name@
            != (#[trigger] program.functions@[j]).name@ by {
            assert(func_entry_ok(*program, m + 1, fs[m + 1]));
        }
        assert forall|m: int| 0 <= m < fs.len() implies body_closed((#[trigger] fs[m]).body@) && runs_canonical(
            fs[m].locals@,
        ) by {
            assert(func_entry_ok(*program, m, fs[m]));
        }
    }
    Ok(WasmModulePlan { funcs, initial_pages, max_pages, data, data_end, entry_fn: (n + 2) as u32 })
}

} // verus!

//! Monomorphic type names of x07AST.

use vstd::prelude::*;
use crate::text::str_eq;

verus! {

/// A monomorphic x07 type.
#[derive(Debug, Clone, Copy, PartialEq, Eq, Structural)]
pub enum Ty {
    I32,
    Bytes,
    BytesView,
    VecU8,
    OptionI32,
    OptionBytes,
    OptionBytesView,
    ResultI32,
    ResultBytes,
    ResultBytesView,
    ResultResultBytes,
    Iface,
    PtrConstU8,
    PtrMutU8,
    PtrConstVoid,
    PtrMutVoid,
    PtrConstI32,
    PtrMutI32,
    TaskScopeV1,
    BudgetScopeV1,
    TaskHandleBytesV1,
    TaskHandleResultBytesV1,
    TaskSlotV1,
    TaskSelectEvtV1,
    OptionTaskSelectEvtV1,
    Never,
}

/// The type that a surface name denotes, if it names one of the parseable types.
pub open spec fn spec_parse_named(name: Seq<char>) -> Option<Ty> {
    if name == "i32"@ { Some(Ty::I32) }
    else if name == "bytes"@ { Some(Ty::Bytes) }
    else if name == "bytes_view"@ { Some(Ty::BytesView) }
    else if name == "vec_u8"@ { Some(Ty::VecU8) }
    else if name == "option_i32"@ { Some(Ty::OptionI32) }
    else if name == "option_bytes"@ { Some(Ty::OptionBytes) }
    else if name == "option_bytes_view"@ { Some(Ty::OptionBytesView) }
    else if name == "result_i32"@ { Some(Ty::ResultI32) }
    else if name == "result_bytes"@ { Some(Ty::ResultBytes) }
    else if name == "result_bytes_view"@ { Some(Ty::ResultBytesView) }
    else if name == "result_result_bytes"@ { Some(Ty::ResultResultBytes) }
    else if name == "iface"@ { Some(Ty::Iface) }
    else if name == "ptr_const_u8"@ { Some(Ty::PtrConstU8) }
    else if name == "ptr_mut_u8"@ { Some(Ty::PtrMutU8) }
    else if name == "ptr_const_void"@ { Some(Ty::PtrConstVoid) }
    else if name == "ptr_mut_void"@ { Some(Ty::PtrMutVoid) }
    else if name == "ptr_const_i32"@ { Some(Ty::PtrConstI32) }
    else if name == "ptr_mut_i32"@ { Some(Ty::PtrMutI32) }
    else { None }
}

/// The name x07AST source writes for a type, for the types that have one.
pub open spec fn ty_surface_name(t: Ty) -> Option<Seq<char>> {
    match t {
        Ty::I32 => Some("i32"@),
        Ty::Bytes => Some("bytes"@),
        Ty::BytesView => Some("bytes_view"@),
        Ty::VecU8 => Some("vec_u8"@),
        Ty::OptionI32 => Some("option_i32"@),
        Ty::OptionBytes => Some("option_bytes"@),
        Ty::OptionBytesView => Some("option_bytes_view"@),
        Ty::ResultI32 => Some("result_i32"@),
        Ty::ResultBytes => Some("result_bytes"@),
        Ty::ResultBytesView => Some("result_bytes_view"@),
        Ty::ResultResultBytes => Some("result_result_bytes"@),
        Ty::Iface => Some("iface"@),
        Ty::PtrConstU8 => Some("ptr_const_u8"@),
        Ty::PtrMutU8 => Some("ptr_mut_u8"@),
        Ty::PtrConstVoid => Some("ptr_const_void"@),
        Ty::PtrMutVoid => Some("ptr_mut_void"@),
        Ty::PtrConstI32 => Some("ptr_const_i32"@),
        Ty::PtrMutI32 => Some("ptr_mut_i32"@),
        _ => None,
    }
}

/// Parsing a name is the inverse of naming a type: every named type parses
/// back from its name, a name that parses is the name of the type it gives,
/// and no two names parse to the same type.
pub proof fn lemma_parse_named_inverts_names(t: Ty, name: Seq<char>, other: Seq<char>)
    ensures
        ty_surface_name(t) matches Some(n) ==> spec_parse_named(n) == Some(t),
        spec_parse_named(name) matches Some(u) ==> ty_surface_name(u) == Some(name),
        spec_parse_named(name) is Some && spec_parse_named(name) == spec_parse_named(other) ==> name == other,
{
    reveal_strlit("i32");
    reveal_strlit("bytes");
    reveal_strlit("bytes_view");
    reveal_strlit("vec_u8");
    reveal_strlit("option_i32");
    reveal_strlit("option_bytes");
    reveal_strlit("option_bytes_view");
    reveal_strlit("result_i32");
    reveal_strlit("result_bytes");
    reveal_strlit("result_bytes_view");
    reveal_strlit("result_result_bytes");
    reveal_strlit("iface");
    reveal_strlit("ptr_const_u8");
    reveal_strlit("ptr_mut_u8");
    reveal_strlit("ptr_const_void");
    reveal_strlit("ptr_mut_void");
    reveal_strlit("ptr_const_i32");
    reveal_strlit("ptr_mut_i32");
    assert("i32"@.len() == 3);
    assert("bytes"@.len() == 5);
    assert("bytes_view"@.len() == 10);
    assert("vec_u8"@.len() == 6);
    assert("option_i32"@.len() == 10);
    assert("option_bytes"@.len() == 12);
    assert("option_bytes_view"@.len() == 17);
    assert("result_i32"@.len() == 10);
    assert("result_bytes"@.len() == 12);
    assert("result_bytes_view"@.len() == 17);
    assert("result_result_bytes"@.len() == 19);
    assert("iface"@.len() == 5);
    assert("ptr_const_u8"@.len() == 12);
    assert("ptr_mut_u8"@.len() == 10);
    assert("ptr_const_void"@.len() == 14);
    assert("ptr_mut_void"@.len() == 12);
    assert("ptr_const_i32"@.len() == 13);
    assert("ptr_mut_i32"@.len() == 11);
    assert("bytes"@[0] == 'b' && "iface"@[0] == 'i');
    assert("bytes_view"@[0] == 'b' && "option_i32"@[0] == 'o');
    assert("bytes_view"@[0] == 'b' && "result_i32"@[0] == 'r');
    assert("bytes_view"@[0] == 'b' && "ptr_mut_u8"@[0] == 'p');
    assert("option_i32"@[0] == 'o' && "result_i32"@[0] == 'r');
    assert("option_i32"@[0] == 'o' && "ptr_mut_u8"@[0] == 'p');
    assert("option_bytes"@[0] == 'o' && "result_bytes"@[0] == 'r');
    assert("option_bytes"@[0] == 'o' && "ptr_const_u8"@[0] == 'p');
    assert("option_bytes"@[0] == 'o' && "ptr_mut_void"@[0] == 'p');
    assert("option_bytes_view"@[0] == 'o' && "result_bytes_view"@[0] == 'r');
    assert("ptr_const_u8"@[0] == 'p' && "result_bytes"@[0] == 'r');
    assert("ptr_const_u8"@[4] == 'c' && "ptr_mut_void"@[4] == 'm');
    assert("ptr_mut_u8"@[0] == 'p' && "result_i32"@[0] == 'r');
    assert("ptr_mut_void"@[0] == 'p' && "result_bytes"@[0] == 'r');
    match t {
        Ty::I32 => {
            assert(spec_parse_named("i32"@) == Some(Ty::I32));
        },
        Ty::Bytes => {
            assert(spec_parse_named("bytes"@) == Some(Ty::Bytes));
        },
        Ty::BytesView => {
            assert(spec_parse_named("bytes_view"@) == Some(Ty::BytesView));
        },
        Ty::VecU8 => {
            assert(spec_parse_named("vec_u8"@) == Some(Ty::VecU8));
        },
        Ty::OptionI32 => {
            assert(spec_parse_named("option_i32"@) == Some(Ty::OptionI32));
        },
        Ty::OptionBytes => {
            assert(spec_parse_named("option_bytes"@) == Some(Ty::OptionBytes));
        },
        Ty::OptionBytesView => {
            assert(spec_parse_named("option_bytes_view"@) == Some(Ty::OptionBytesView));
        },
        Ty::ResultI32 => {
            assert(spec_parse_named("result_i32"@) == Some(Ty::ResultI32));
        },
        Ty::ResultBytes => {
            assert(spec_parse_named("result_bytes"@) == Some(Ty::ResultBytes));
        },
        Ty::ResultBytesView => {
            assert(spec_parse_named("result_bytes_view"@) == Some(Ty::ResultBytesView));
        },
        Ty::ResultResultBytes => {
            assert(spec_parse_named("result_result_bytes"@) == Some(Ty::ResultResultBytes));
        },
        Ty::Iface => {
            assert(spec_parse_named("iface"@) == Some(Ty::Iface));
        },
        Ty::PtrConstU8 => {
            assert(spec_parse_named("ptr_const_u8"@) == Some(Ty::PtrConstU8));
        },
        Ty::PtrMutU8 => {
            assert(spec_parse_named("ptr_mut_u8"@) == Some(Ty::PtrMutU8));
        },
        Ty::PtrConstVoid => {
            assert(spec_parse_named("ptr_const_void"@) == Some(Ty::PtrConstVoid));
        },
        Ty::PtrMutVoid => {
            assert(spec_parse_named("ptr_mut_void"@) == Some(Ty::PtrMutVoid));
        },
        Ty::PtrConstI32 => {
            assert(spec_parse_named("ptr_const_i32"@) == Some(Ty::PtrConstI32));
        },
        Ty::PtrMutI32 => {
            assert(spec_parse_named("ptr_mut_i32"@) == Some(Ty::PtrMutI32));
        },
        _ => {},
    }
}

/// Pointer types usable across the FFI boundary.
pub open spec fn spec_is_ptr_ty(t: Ty) -> bool {
    t == Ty::PtrConstU8 || t == Ty::PtrMutU8 || t == Ty::PtrConstVoid || t == Ty::PtrMutVoid
        || t == Ty::PtrConstI32 || t == Ty::PtrMutI32
}

/// Types usable across the FFI boundary: `i32` and the pointer types.
pub open spec fn spec_is_ffi_ty(t: Ty) -> bool {
    t == Ty::I32 || spec_is_ptr_ty(t)
}

/// The pointer types are exactly the named types whose name starts with
/// `ptr_`, and the FFI types are `i32` and those.
pub proof fn lemma_ptr_types_are_ptr_named(t: Ty)
    ensures
        spec_is_ptr_ty(t) <==> (ty_surface_name(t) matches Some(n) && crate::text::seq_starts_with(n, "ptr_"@)),
        spec_is_ffi_ty(t) <==> t == Ty::I32 || (ty_surface_name(t) matches Some(n) && crate::text::seq_starts_with(
            n,
            "ptr_"@,
        )),
{
    reveal_strlit("i32");
    reveal_strlit("bytes");
    reveal_strlit("bytes_view");
    reveal_strlit("vec_u8");
    reveal_strlit("option_i32");
    reveal_strlit("option_bytes");
    reveal_strlit("option_bytes_view");
    reveal_strlit("result_i32");
    reveal_strlit("result_bytes");
    reveal_strlit("result_bytes_view");
    reveal_strlit("result_result_bytes");
    reveal_strlit("iface");
    reveal_strlit("ptr_const_u8");
    reveal_strlit("ptr_mut_u8");
    reveal_strlit("ptr_const_void");
    reveal_strlit("ptr_mut_void");
    reveal_strlit("ptr_const_i32");
    reveal_strlit("ptr_mut_i32");
    reveal_strlit("ptr_");
    assert("i32"@.len() == 3);
    assert("bytes"@.len() == 5);
    assert("bytes_view"@.len() == 10);
    assert("vec_u8"@.len() == 6);
    assert("option_i32"@.len() == 10);
    assert("option_bytes"@.len() == 12);
    assert("option_bytes_view"@.len() == 17);
    assert("result_i32"@.len() == 10);
    assert("result_bytes"@.len() == 12);
    assert("result_bytes_view"@.len() == 17);
    assert("result_result_bytes"@.len() == 19);
    assert("iface"@.len() == 5);
    assert("ptr_const_u8"@.len() == 12);
    assert("ptr_mut_u8"@.len() == 10);
    assert("ptr_const_void"@.len() == 14);
    assert("ptr_mut_void"@.len() == 12);
    assert("ptr_const_i32"@.len() == 13);
    assert("ptr_mut_i32"@.len() == 11);
    assert("ptr_"@.len() == 4);
    assert("bytes"@[0] == 'b' && "iface"@[0] == 'i');
    assert("bytes_view"@[0] == 'b' && "option_i32"@[0] == 'o');
    assert("bytes_view"@[0] == 'b' && "result_i32"@[0] == 'r');
    assert("bytes_view"@[0] == 'b' && "ptr_mut_u8"@[0] == 'p');
    assert("option_i32"@[0] == 'o' && "result_i32"@[0] == 'r');
    assert("option_i32"@[0] == 'o' && "ptr_mut_u8"@[0] == 'p');
    assert("option_bytes"@[0] == 'o' && "result_bytes"@[0] == 'r');
    assert("option_bytes"@[0] == 'o' && "ptr_const_u8"@[0] == 'p');
    assert("option_bytes"@[0] == 'o' && "ptr_mut_void"@[0] == 'p');
    assert("option_bytes_view"@[0] == 'o' && "result_bytes_view"@[0] == 'r');
    assert("ptr_const_u8"@[0] == 'p' && "result_bytes"@[0] == 'r');
    assert("ptr_const_u8"@[4] == 'c' && "ptr_mut_void"@[4] == 'm');
    assert("ptr_mut_u8"@[0] == 'p' && "result_i32"@[0] == 'r');
    assert("ptr_mut_void"@[0] == 'p' && "result_bytes"@[0] == 'r');
    match t {
        Ty::I32 => {
        },
        Ty::Bytes => {
            assert("bytes"@.take(4)[0] != "ptr_"@[0]);
        },
        Ty::BytesView => {
            assert("bytes_view"@.take(4)[0] != "ptr_"@[0]);
        },
        Ty::VecU8 => {
            assert("vec_u8"@.take(4)[0] != "ptr_"@[0]);
        },
        Ty::OptionI32 => {
            assert("option_i32"@.take(4)[0] != "ptr_"@[0]);
        },
        Ty::OptionBytes => {
            assert("option_bytes"@.take(4)[0] != "ptr_"@[0]);
        },
        Ty::OptionBytesView => {
            assert("option_bytes_view"@.take(4)[0] != "ptr_"@[0]);
        },
        Ty::ResultI32 => {
            assert("result_i32"@.take(4)[0] != "ptr_"@[0]);
        },
        Ty::ResultBytes => {
            assert("result_bytes"@.take(4)[0] != "ptr_"@[0]);
        },
        Ty::ResultBytesView => {
            assert("result_bytes_view"@.take(4)[0] != "ptr_"@[0]);
        },
        Ty::ResultResultBytes => {
            assert("result_result_bytes"@.take(4)[0] != "ptr_"@[0]);
        },
        Ty::Iface => {
            assert("iface"@.take(4)[0] != "ptr_"@[0]);
        },
        Ty::PtrConstU8 => {
            assert("ptr_const_u8"@.take(4) =~= "ptr_"@);
        },
        Ty::PtrMutU8 => {
            assert("ptr_mut_u8"@.take(4) =~= "ptr_"@);
        },
        Ty::PtrConstVoid => {
            assert("ptr_const_void"@.take(4) =~= "ptr_"@);
        },
        Ty::PtrMutVoid => {
            assert("ptr_mut_void"@.take(4) =~= "ptr_"@);
        },
        Ty::PtrConstI32 => {
            assert("ptr_const_i32"@.take(4) =~= "ptr_"@);
        },
        Ty::PtrMutI32 => {
            assert("ptr_mut_i32"@.take(4) =~= "ptr_"@);
        },
        _ => {},
    }
}

impl Ty {
    pub fn parse_named(name: &str) -> (r: Option<Ty>)
        ensures
            r == spec_parse_named(name@),
    {
        if str_eq(name, "i32") { Some(Ty::I32) }
        else if str_eq(name, "bytes") { Some(Ty::Bytes) }
        else if str_eq(name, "bytes_view") { Some(Ty::BytesView) }
        else if str_eq(name, "vec_u8") { Some(Ty::VecU8) }
        else if str_eq(name, "option_i32") { Some(Ty::OptionI32) }
        else if str_eq(name, "option_bytes") { Some(Ty::OptionBytes) }
        else if str_eq(name, "option_bytes_view") { Some(Ty::OptionBytesView) }
        else if str_eq(name, "result_i32") { Some(Ty::ResultI32) }
        else if str_eq(name, "result_bytes") { Some(Ty::ResultBytes) }
        else if str_eq(name, "result_bytes_view") { Some(Ty::ResultBytesView) }
        else if str_eq(name, "result_result_bytes") { Some(Ty::ResultResultBytes) }
        else if str_eq(name, "iface") { Some(Ty::Iface) }
        else if str_eq(name, "ptr_const_u8") { Some(Ty::PtrConstU8) }
        else if str_eq(name, "ptr_mut_u8") { Some(Ty::PtrMutU8) }
        else if str_eq(name, "ptr_const_void") { Some(Ty::PtrConstVoid) }
        else if str_eq(name, "ptr_mut_void") { Some(Ty::PtrMutVoid) }
        else if str_eq(name, "ptr_const_i32") { Some(Ty::PtrConstI32) }
        else if str_eq(name, "ptr_mut_i32") { Some(Ty::PtrMutI32) }
        else { None }
    }

    pub fn is_ffi_ty(self) -> (r: bool)
        ensures
            r == spec_is_ffi_ty(self),
    {
        match self {
            Ty::I32 | Ty::PtrConstU8 | Ty::PtrMutU8 | Ty::PtrConstVoid | Ty::PtrMutVoid
            | Ty::PtrConstI32 | Ty::PtrMutI32 => true,
            _ => false,
        }
    }

    pub fn is_ptr_ty(self) -> (r: bool)
        ensures
            r == spec_is_ptr_ty(self),
    {
        match self {
            Ty::PtrConstU8 | Ty::PtrMutU8 | Ty::PtrConstVoid | Ty::PtrMutVoid
            | Ty::PtrConstI32 | Ty::PtrMutI32 => true,
            _ => false,
        }
    }
}

} // verus!

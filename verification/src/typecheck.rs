//! Type inference and checking for x07AST files: constraint generation,
//! unification, implicit type-application inference and contract checks.

use vstd::prelude::*;
use crate::ast::{
    lemma_view_exprs, lemma_view_type_refs, view_exprs, view_type_refs, ContractClauseAst, Expr,
    ExprV, ExternFunctionDecl, FnParam, FunctionDecl, TypeParam, TypeRef, TypeRefV, X07AstFile,
    X07AstKind, expr_ident, expr_ptr,
};
use crate::diagnostics::{data_view, dv_array, DiagV, DiagValue, Diagnostic, LocV, Location, DV};
use crate::infer::{lemma_child, lemma_strict_chars_trans};
use crate::suggest::{chars_le, chars_le_exec, lemma_chars_le_total, lemma_chars_le_trans};
use crate::contract_rules::{
    contract_collect_impurity, contract_ty_brief, contract_witness_ty_allowed, diag_contract_err,
};
use crate::diagnostics::{Severity, Stage};
use crate::infer::{
    call_head, callee_in_module, lemma_ext_refl, lemma_ext_scope, lemma_ext_trans, unify_diag_v,
    unknown_callee_v, ConstraintV, InferState, PendingImplicitTapp,
};
use crate::tapp::{
    diag_for_tapp_elab, diags_view, drain_diags, drain_pending_tapp, drain_table, rewrites_sorted, rewrites_table,
    tapp_call_rewrite_expr, tapp_elab_v, tapp_rewrite_value, RewriteV,
};
use crate::text::{chars_eq, chars_of, concat_str, dec, str_eq, u64_to_dec};
use crate::unify::{unify, unify_error_ok, TyInfoTerm, TyT, TyTerm, UnifyError};

verus! {

#[derive(Debug, Clone, Default)]
pub struct TypecheckOptions {}

/// An inferred type application to insert at a call site.
#[derive(Debug, Clone, PartialEq, Eq)]
pub struct TappRewrite {
    pub call_ptr: String,
    pub callee: String,
    pub inferred_type_args: Vec<TypeRef>,
}

#[derive(Debug, PartialEq, Eq)]
pub struct TypecheckReport {
    pub diagnostics: Vec<Diagnostic>,
    pub tapp_rewrites: Vec<TappRewrite>,
}

/// A function signature as the typechecker sees it.
#[derive(Debug, Clone)]
pub struct FnSigAst {
    pub name: String,
    pub type_params: Vec<TypeParam>,
    pub params: Vec<(String, TypeRef, Option<String>)>,
    pub result: TypeRef,
    pub result_brand: Option<String>,
    pub decl_ptr: String,
    pub is_async: bool,
}

pub open spec fn opt_str(o: Option<String>) -> Option<Seq<char>> {
    match o {
        Some(s) => Some(s@),
        None => None,
    }
}

/// The mathematical form of a signature.
pub struct FnSigV {
    pub name: Seq<char>,
    pub type_params: Seq<Seq<char>>,
    pub params: Seq<(Seq<char>, TypeRefV, Option<Seq<char>>)>,
    pub result: TypeRefV,
    pub result_brand: Option<Seq<char>>,
    pub decl_ptr: Seq<char>,
    pub is_async: bool,
}

pub open spec fn sig_view(s: FnSigAst) -> FnSigV {
    FnSigV {
        name: s.name@,
        type_params: s.type_params@.map_values(|t: TypeParam| t.name@),
        params: s.params@.map_values(
            |p: (String, TypeRef, Option<String>)| (p.0@, p.1@, opt_str(p.2)),
        ),
        result: s.result@,
        result_brand: opt_str(s.result_brand),
        decl_ptr: s.decl_ptr@,
        is_async: s.is_async,
    }
}

/// Signatures by function name.
#[derive(Debug, Clone)]
pub struct TypecheckSigs {
    sigs: Vec<FnSigAst>,
}

/// The signature table `m` after adding `entries` in order (a later entry
/// replaces an earlier one of the same name).
pub open spec fn insert_sigs(m: Map<Seq<char>, FnSigV>, entries: Seq<FnSigV>) -> Map<Seq<char>, FnSigV>
    decreases entries.len(),
{
    if entries.len() == 0 {
        m
    } else {
        let init = insert_sigs(m, entries.drop_last());
        init.insert(entries.last().name, entries.last())
    }
}

pub proof fn lemma_insert_sigs_push(m: Map<Seq<char>, FnSigV>, entries: Seq<FnSigV>, e: FnSigV)
    ensures
        insert_sigs(m, entries.push(e)) == insert_sigs(m, entries).insert(e.name, e),
{
    assert(entries.push(e).drop_last() =~= entries);
}

pub proof fn lemma_insert_sigs_append(m: Map<Seq<char>, FnSigV>, a: Seq<FnSigV>, b: Seq<FnSigV>)
    ensures
        insert_sigs(m, a + b) == insert_sigs(insert_sigs(m, a), b),
    decreases b.len(),
{
    if b.len() == 0 {
        assert(a + b =~= a);
    } else {
        lemma_insert_sigs_append(m, a, b.drop_last());
        assert((a + b).drop_last() =~= a + b.drop_last());
        assert((a + b).last() == b.last());
    }
}

/// The last entry named `k`, if any.
pub open spec fn last_named(e: Seq<FnSigV>, k: Seq<char>) -> Option<FnSigV>
    decreases e.len(),
{
    if e.len() == 0 {
        None
    } else if e.last().name == k {
        Some(e.last())
    } else {
        last_named(e.drop_last(), k)
    }
}

/// After inserting `e`, a key holds its last entry in `e`, or what `m` held.
pub proof fn lemma_insert_sigs_at(m: Map<Seq<char>, FnSigV>, e: Seq<FnSigV>, k: Seq<char>)
    ensures
        insert_sigs(m, e).dom().contains(k) == (last_named(e, k) is Some || m.dom().contains(k)),
        insert_sigs(m, e).dom().contains(k) ==> insert_sigs(m, e)[k] == match last_named(e, k) {
            Some(v) => v,
            None => m[k],
        },
    decreases e.len(),
{
    if e.len() > 0 {
        lemma_insert_sigs_at(m, e.drop_last(), k);
    }
}

/// Inserting the same entries twice gives what inserting them once gives.
pub proof fn lemma_insert_sigs_idempotent(m: Map<Seq<char>, FnSigV>, e: Seq<FnSigV>)
    ensures
        insert_sigs(insert_sigs(m, e), e) == insert_sigs(m, e),
{
    let once = insert_sigs(m, e);
    let twice = insert_sigs(once, e);
    assert forall|k: Seq<char>| #[trigger] twice.dom().contains(k) == once.dom().contains(k) by {
        lemma_insert_sigs_at(m, e, k);
        lemma_insert_sigs_at(once, e, k);
    }
    assert forall|k: Seq<char>| twice.dom().contains(k) implies #[trigger] twice[k] == once[k] by {
        lemma_insert_sigs_at(m, e, k);
        lemma_insert_sigs_at(once, e, k);
    }
    assert(twice =~= once);
}

/// Adding the builtins twice leaves the table as adding them once does, and
/// a name that no builtin has keeps whatever the table held for it.
pub proof fn lemma_add_builtins_idempotent(t: Map<Seq<char>, FnSigV>, k: Seq<char>)
    ensures
        insert_sigs(insert_sigs(t, builtin_entries()), builtin_entries()) == insert_sigs(t, builtin_entries()),
        last_named(builtin_entries(), k) is None ==> insert_sigs(t, builtin_entries()).dom().contains(k)
            == t.dom().contains(k) && (t.dom().contains(k) ==> insert_sigs(t, builtin_entries())[k] == t[k]),
{
    lemma_insert_sigs_idempotent(t, builtin_entries());
    lemma_insert_sigs_at(t, builtin_entries(), k);
}

proof fn lemma_last_named_at(e: Seq<FnSigV>, k: Seq<char>, i: int)
    requires
        0 <= i < e.len(),
        e[i].name == k,
        forall|j: int| i < j < e.len() ==> (#[trigger] e[j]).name != k,
    ensures
        last_named(e, k) == Some(e[i]),
    decreases e.len(),
{
    if i < e.len() - 1 {
        assert forall|j: int| i < j < e.drop_last().len() implies (#[trigger] e.drop_last()[j]).name != k by {
            assert(e.drop_last()[j] == e[j]);
        }
        lemma_last_named_at(e.drop_last(), k, i);
    }
}

/// After the builtins are added, `+` takes two `i32` operands `a` and `b`
/// and returns `i32`, with no type parameters, whatever the table held.
pub proof fn lemma_builtin_plus_sig(t: Map<Seq<char>, FnSigV>)
    ensures
        insert_sigs(t, builtin_entries()).dom().contains("+"@),
        insert_sigs(t, builtin_entries())["+"@] == mono_v("+"@, seq![("a"@, "i32"@), ("b"@, "i32"@)], "i32"@),
{
    reveal_strlit("+");
    reveal_strlit("-");
    reveal_strlit("*");
    reveal_strlit("/");
    reveal_strlit("%");
    reveal_strlit("=");
    reveal_strlit("!=");
    reveal_strlit("<");
    reveal_strlit("<=");
    reveal_strlit(">");
    reveal_strlit(">=");
    reveal_strlit("<u");
    reveal_strlit(">=u");
    reveal_strlit(">u");
    reveal_strlit("<<u");
    reveal_strlit(">>u");
    reveal_strlit("<=u");
    reveal_strlit("&");
    reveal_strlit("|");
    reveal_strlit("^");
    reveal_strlit("&&");
    reveal_strlit("||");
    reveal_strlit("bytes.alloc");
    reveal_strlit("bytes.len");
    reveal_strlit("bytes.get_u8");
    reveal_strlit("bytes.set_u8");
    reveal_strlit("bytes.view");
    reveal_strlit("bytes.subview");
    reveal_strlit("view.len");
    reveal_strlit("view.get_u8");
    reveal_strlit("view.slice");
    reveal_strlit("view.to_bytes");
    reveal_strlit("vec_u8.with_capacity");
    reveal_strlit("vec_u8.push");
    reveal_strlit("vec_u8.extend_bytes");
    reveal_strlit("vec_u8.into_bytes");
    let e = builtin_entries();
    let a = bin_op_names().map_values(
        |n: Seq<char>| mono_v(n, seq![("a"@, "i32"@), ("b"@, "i32"@)], "i32"@),
    );
    assert(bin_op_names().len() == 22);
    assert(a.len() == 22);
    assert(e.len() == 36);
    assert(bin_op_names()[0] == "+"@);
    assert("+"@.len() == 1 && "+"@[0] == '+');
    assert(e[0] == a[0]);
    assert forall|j: int| 0 < j < e.len() implies (#[trigger] e[j]).name != "+"@ by {
        if j < 22 {
            assert(e[j] == a[j]);
        }
        if j == 1 {
            assert(bin_op_names()[1] == "-"@);
            assert(e[1].name == "-"@);
            assert(e[1].name[0] == '-');
        } else if j == 2 {
            assert(bin_op_names()[2] == "*"@);
            assert(e[2].name == "*"@);
            assert(e[2].name[0] == '*');
        } else if j == 3 {
            assert(bin_op_names()[3] == "/"@);
            assert(e[3].name == "/"@);
            assert(e[3].name[0] == '/');
        } else if j == 4 {
            assert(bin_op_names()[4] == "%"@);
            assert(e[4].name == "%"@);
            assert(e[4].name[0] == '%');
        } else if j == 5 {
            assert(bin_op_names()[5] == "="@);
            assert(e[5].name == "="@);
            assert(e[5].name[0] == '=');
        } else if j == 6 {
            assert(bin_op_names()[6] == "!="@);
            assert(e[6].name == "!="@);
            assert(e[6].name.len() == 2);
        } else if j == 7 {
            assert(bin_op_names()[7] == "<"@);
            assert(e[7].name == "<"@);
            assert(e[7].name[0] == '<');
        } else if j == 8 {
            assert(bin_op_names()[8] == "<="@);
            assert(e[8].name == "<="@);
            assert(e[8].name.len() == 2);
        } else if j == 9 {
            assert(bin_op_names()[9] == ">"@);
            assert(e[9].name == ">"@);
            assert(e[9].name[0] == '>');
        } else if j == 10 {
            assert(bin_op_names()[10] == ">="@);
            assert(e[10].name == ">="@);
            assert(e[10].name.len() == 2);
        } else if j == 11 {
            assert(bin_op_names()[11] == "<u"@);
            assert(e[11].name == "<u"@);
            assert(e[11].name.len() == 2);
        } else if j == 12 {
            assert(bin_op_names()[12] == ">=u"@);
            assert(e[12].name == ">=u"@);
            assert(e[12].name.len() == 3);
        } else if j == 13 {
            assert(bin_op_names()[13] == ">u"@);
            assert(e[13].name == ">u"@);
            assert(e[13].name.len() == 2);
        } else if j == 14 {
            assert(bin_op_names()[14] == "<<u"@);
            assert(e[14].name == "<<u"@);
            assert(e[14].name.len() == 3);
        } else if j == 15 {
            assert(bin_op_names()[15] == ">>u"@);
            assert(e[15].name == ">>u"@);
            assert(e[15].name.len() == 3);
        } else if j == 16 {
            assert(bin_op_names()[16] == "<=u"@);
            assert(e[16].name == "<=u"@);
            assert(e[16].name.len() == 3);
        } else if j == 17 {
            assert(bin_op_names()[17] == "&"@);
            assert(e[17].name == "&"@);
            assert(e[17].name[0] == '&');
        } else if j == 18 {
            assert(bin_op_names()[18] == "|"@);
            assert(e[18].name == "|"@);
            assert(e[18].name[0] == '|');
        } else if j == 19 {
            assert(bin_op_names()[19] == "^"@);
            assert(e[19].name == "^"@);
            assert(e[19].name[0] == '^');
        } else if j == 20 {
            assert(bin_op_names()[20] == "&&"@);
            assert(e[20].name == "&&"@);
            assert(e[20].name.len() == 2);
        } else if j == 21 {
            assert(bin_op_names()[21] == "||"@);
            assert(e[21].name == "||"@);
            assert(e[21].name.len() == 2);
        } else if j == 22 {
            assert(e[22].name == "bytes.alloc"@);
            assert(e[22].name.len() == 11);
        } else if j == 23 {
            assert(e[23].name == "bytes.len"@);
            assert(e[23].name.len() == 9);
        } else if j == 24 {
            assert(e[24].name == "bytes.get_u8"@);
            assert(e[24].name.len() == 12);
        } else if j == 25 {
            assert(e[25].name == "bytes.set_u8"@);
            assert(e[25].name.len() == 12);
        } else if j == 26 {
            assert(e[26].name == "bytes.view"@);
            assert(e[26].name.len() == 10);
        } else if j == 27 {
            assert(e[27].name == "bytes.subview"@);
            assert(e[27].name.len() == 13);
        } else if j == 28 {
            assert(e[28].name == "view.len"@);
            assert(e[28].name.len() == 8);
        } else if j == 29 {
            assert(e[29].name == "view.get_u8"@);
            assert(e[29].name.len() == 11);
        } else if j == 30 {
            assert(e[30].name == "view.slice"@);
            assert(e[30].name.len() == 10);
        } else if j == 31 {
            assert(e[31].name == "view.to_bytes"@);
            assert(e[31].name.len() == 13);
        } else if j == 32 {
            assert(e[32].name == "vec_u8.with_capacity"@);
            assert(e[32].name.len() == 20);
        } else if j == 33 {
            assert(e[33].name == "vec_u8.push"@);
            assert(e[33].name.len() == 11);
        } else if j == 34 {
            assert(e[34].name == "vec_u8.extend_bytes"@);
            assert(e[34].name.len() == 19);
        } else if j == 35 {
            assert(e[35].name == "vec_u8.into_bytes"@);
            assert(e[35].name.len() == 17);
        }
    }
    lemma_last_named_at(e, "+"@, 0);
    lemma_insert_sigs_at(t, e, "+"@);
}

/// Every builtin signature agrees with the WASM back end on what the
/// builtin returns: the back end types the builtin, that type has a surface
/// name, and the signature's result is that name; builtins take no type
/// parameters.
pub proof fn lemma_builtin_results_agree_with_backend(i: int)
    requires
        0 <= i < builtin_entries().len(),
    ensures
        ({
            let e = builtin_entries()[i];
            &&& e.type_params.len() == 0
            &&& crate::wasm_emit::emit_module::builtin_ty(e.name) matches Some(t) && crate::types::ty_surface_name(t)
                matches Some(n) && e.result == TypeRefV::Named(n)
        }),
{
    reveal_strlit("i32.lit");
    reveal_strlit("view.len");
    reveal_strlit("view.get_u8");
    reveal_strlit("view.eq");
    reveal_strlit("bytes.len");
    reveal_strlit("bytes.get_u8");
    reveal_strlit("bytes.eq");
    reveal_strlit("bytes.cmp_range");
    reveal_strlit("codec.read_u32_le");
    reveal_strlit("vec_u8.len");
    reveal_strlit("vec_u8.get");
    reveal_strlit("view.slice");
    reveal_strlit("bytes.view");
    reveal_strlit("bytes.subview");
    reveal_strlit("bytes.view_lit");
    reveal_strlit("vec_u8.as_view");
    reveal_strlit("view.to_bytes");
    reveal_strlit("bytes.set_u8");
    reveal_strlit("bytes.alloc");
    reveal_strlit("bytes.concat");
    reveal_strlit("bytes.slice");
    reveal_strlit("bytes.lit");
    reveal_strlit("codec.write_u32_le");
    reveal_strlit("vec_u8.into_bytes");
    reveal_strlit("vec_u8.with_capacity");
    reveal_strlit("vec_u8.push");
    reveal_strlit("vec_u8.reserve_exact");
    reveal_strlit("vec_u8.extend_bytes");
    reveal_strlit("vec_u8.extend_bytes_range");
    reveal_strlit("+");
    reveal_strlit("-");
    reveal_strlit("*");
    reveal_strlit("/");
    reveal_strlit("%");
    reveal_strlit("=");
    reveal_strlit("!=");
    reveal_strlit("<");
    reveal_strlit("<u");
    reveal_strlit("<=u");
    reveal_strlit(">u");
    reveal_strlit(">=u");
    reveal_strlit("<=");
    reveal_strlit(">");
    reveal_strlit(">=");
    reveal_strlit("&&");
    reveal_strlit("||");
    reveal_strlit("&");
    reveal_strlit("|");
    reveal_strlit("^");
    reveal_strlit("<<u");
    reveal_strlit(">>u");
    reveal_strlit("i32");
    reveal_strlit("bytes");
    reveal_strlit("bytes_view");
    reveal_strlit("vec_u8");
    assert("i32.lit"@.len() == 7);
    assert("view.len"@.len() == 8);
    assert("view.get_u8"@.len() == 11);
    assert("view.eq"@.len() == 7);
    assert("bytes.len"@.len() == 9);
    assert("bytes.get_u8"@.len() == 12);
    assert("bytes.eq"@.len() == 8);
    assert("bytes.cmp_range"@.len() == 15);
    assert("codec.read_u32_le"@.len() == 17);
    assert("vec_u8.len"@.len() == 10);
    assert("vec_u8.get"@.len() == 10);
    assert("view.slice"@.len() == 10);
    assert("bytes.view"@.len() == 10);
    assert("bytes.subview"@.len() == 13);
    assert("bytes.view_lit"@.len() == 14);
    assert("vec_u8.as_view"@.len() == 14);
    assert("view.to_bytes"@.len() == 13);
    assert("bytes.set_u8"@.len() == 12);
    assert("bytes.alloc"@.len() == 11);
    assert("bytes.concat"@.len() == 12);
    assert("bytes.slice"@.len() == 11);
    assert("bytes.lit"@.len() == 9);
    assert("codec.write_u32_le"@.len() == 18);
    assert("vec_u8.into_bytes"@.len() == 17);
    assert("vec_u8.with_capacity"@.len() == 20);
    assert("vec_u8.push"@.len() == 11);
    assert("vec_u8.reserve_exact"@.len() == 20);
    assert("vec_u8.extend_bytes"@.len() == 19);
    assert("vec_u8.extend_bytes_range"@.len() == 25);
    assert("+"@.len() == 1);
    assert("-"@.len() == 1);
    assert("*"@.len() == 1);
    assert("/"@.len() == 1);
    assert("%"@.len() == 1);
    assert("="@.len() == 1);
    assert("!="@.len() == 2);
    assert("<"@.len() == 1);
    assert("<u"@.len() == 2);
    assert("<=u"@.len() == 3);
    assert(">u"@.len() == 2);
    assert(">=u"@.len() == 3);
    assert("<="@.len() == 2);
    assert(">"@.len() == 1);
    assert(">="@.len() == 2);
    assert("&&"@.len() == 2);
    assert("||"@.len() == 2);
    assert("&"@.len() == 1);
    assert("|"@.len() == 1);
    assert("^"@.len() == 1);
    assert("<<u"@.len() == 3);
    assert(">>u"@.len() == 3);
    assert("i32"@.len() == 3);
    assert("bytes"@.len() == 5);
    assert("bytes_view"@.len() == 10);
    assert("vec_u8"@.len() == 6);
    assert("i32.lit"@[0] == 'i' && "view.eq"@[0] == 'v');
    assert("bytes.len"@[7] == 'e' && "bytes.lit"@[7] == 'i');
    assert("bytes.get_u8"@[6] == 'g' && "bytes.set_u8"@[6] == 's');
    assert("bytes.eq"@[0] == 'b' && "view.len"@[0] == 'v');
    assert("codec.read_u32_le"@[0] == 'c' && "vec_u8.into_bytes"@[0] == 'v');
    assert("vec_u8.len"@[1] == 'e' && "view.slice"@[1] == 'i');
    assert("vec_u8.get"@[7] == 'g' && "vec_u8.len"@[7] == 'l');
    assert("vec_u8.get"@[1] == 'e' && "view.slice"@[1] == 'i');
    assert("bytes.view"@[0] == 'b' && "vec_u8.len"@[0] == 'v');
    assert("bytes.view"@[0] == 'b' && "vec_u8.get"@[0] == 'v');
    assert("bytes.view"@[0] == 'b' && "view.slice"@[0] == 'v');
    assert("bytes.view"@[5] == '.' && "bytes_view"@[5] == '_');
    assert("bytes.subview"@[0] == 'b' && "view.to_bytes"@[0] == 'v');
    assert("bytes.view_lit"@[0] == 'b' && "vec_u8.as_view"@[0] == 'v');
    assert("bytes.alloc"@[0] == 'b' && "view.get_u8"@[0] == 'v');
    assert("bytes.alloc"@[6] == 'a' && "bytes.slice"@[6] == 's');
    assert("bytes.alloc"@[0] == 'b' && "vec_u8.push"@[0] == 'v');
    assert("bytes.concat"@[6] == 'c' && "bytes.get_u8"@[6] == 'g');
    assert("bytes.concat"@[6] == 'c' && "bytes.set_u8"@[6] == 's');
    assert("bytes.slice"@[0] == 'b' && "view.get_u8"@[0] == 'v');
    assert("bytes.slice"@[0] == 'b' && "vec_u8.push"@[0] == 'v');
    assert("vec_u8.push"@[1] == 'e' && "view.get_u8"@[1] == 'i');
    assert("vec_u8.reserve_exact"@[7] == 'r' && "vec_u8.with_capacity"@[7] == 'w');
    assert("+"@[0] == '+' && "-"@[0] == '-');
    assert("+"@[0] == '+' && "/"@[0] == '/');
    assert("+"@[0] == '+' && "="@[0] == '=');
    assert("+"@[0] == '+' && "<"@[0] == '<');
    assert("+"@[0] == '+' && ">"@[0] == '>');
    assert("+"@[0] == '+' && "|"@[0] == '|');
    assert("+"@[0] == '+' && "^"@[0] == '^');
    assert("-"@[0] == '-' && "/"@[0] == '/');
    assert("-"@[0] == '-' && "="@[0] == '=');
    assert("-"@[0] == '-' && "<"@[0] == '<');
    assert("-"@[0] == '-' && ">"@[0] == '>');
    assert("-"@[0] == '-' && "|"@[0] == '|');
    assert("-"@[0] == '-' && "^"@[0] == '^');
    assert("*"@[0] == '*' && "+"@[0] == '+');
    assert("*"@[0] == '*' && "-"@[0] == '-');
    assert("*"@[0] == '*' && "/"@[0] == '/');
    assert("*"@[0] == '*' && "="@[0] == '=');
    assert("*"@[0] == '*' && "<"@[0] == '<');
    assert("*"@[0] == '*' && ">"@[0] == '>');
    assert("*"@[0] == '*' && "|"@[0] == '|');
    assert("*"@[0] == '*' && "^"@[0] == '^');
    assert("/"@[0] == '/' && "="@[0] == '=');
    assert("/"@[0] == '/' && "<"@[0] == '<');
    assert("/"@[0] == '/' && ">"@[0] == '>');
    assert("/"@[0] == '/' && "|"@[0] == '|');
    assert("/"@[0] == '/' && "^"@[0] == '^');
    assert("%"@[0] == '%' && "+"@[0] == '+');
    assert("%"@[0] == '%' && "-"@[0] == '-');
    assert("%"@[0] == '%' && "*"@[0] == '*');
    assert("%"@[0] == '%' && "/"@[0] == '/');
    assert("%"@[0] == '%' && "="@[0] == '=');
    assert("%"@[0] == '%' && "<"@[0] == '<');
    assert("%"@[0] == '%' && ">"@[0] == '>');
    assert("%"@[0] == '%' && "&"@[0] == '&');
    assert("%"@[0] == '%' && "|"@[0] == '|');
    assert("%"@[0] == '%' && "^"@[0] == '^');
    assert("="@[0] == '=' && ">"@[0] == '>');
    assert("="@[0] == '=' && "|"@[0] == '|');
    assert("="@[0] == '=' && "^"@[0] == '^');
    assert("!="@[0] == '!' && "<u"@[0] == '<');
    assert("!="@[0] == '!' && ">u"@[0] == '>');
    assert("!="@[0] == '!' && "<="@[0] == '<');
    assert("!="@[0] == '!' && ">="@[0] == '>');
    assert("!="@[0] == '!' && "&&"@[0] == '&');
    assert("!="@[0] == '!' && "||"@[0] == '|');
    assert("<"@[0] == '<' && "="@[0] == '=');
    assert("<"@[0] == '<' && ">"@[0] == '>');
    assert("<"@[0] == '<' && "|"@[0] == '|');
    assert("<"@[0] == '<' && "^"@[0] == '^');
    assert("<u"@[0] == '<' && ">u"@[0] == '>');
    assert("<u"@[0] == '<' && ">="@[0] == '>');
    assert("<u"@[0] == '<' && "||"@[0] == '|');
    assert("<=u"@[0] == '<' && ">=u"@[0] == '>');
    assert("<=u"@[0] == '<' && ">>u"@[0] == '>');
    assert("<=u"@[0] == '<' && "i32"@[0] == 'i');
    assert(">u"@[0] == '>' && "||"@[0] == '|');
    assert(">=u"@[1] == '=' && ">>u"@[1] == '>');
    assert(">=u"@[0] == '>' && "i32"@[0] == 'i');
    assert("<="@[1] == '=' && "<u"@[1] == 'u');
    assert("<="@[0] == '<' && ">u"@[0] == '>');
    assert("<="@[0] == '<' && ">="@[0] == '>');
    assert("<="@[0] == '<' && "||"@[0] == '|');
    assert(">"@[0] == '>' && "|"@[0] == '|');
    assert(">"@[0] == '>' && "^"@[0] == '^');
    assert(">="@[1] == '=' && ">u"@[1] == 'u');
    assert(">="@[0] == '>' && "||"@[0] == '|');
    assert("&&"@[0] == '&' && "<u"@[0] == '<');
    assert("&&"@[0] == '&' && ">u"@[0] == '>');
    assert("&&"@[0] == '&' && "<="@[0] == '<');
    assert("&&"@[0] == '&' && ">="@[0] == '>');
    assert("&&"@[0] == '&' && "||"@[0] == '|');
    assert("&"@[0] == '&' && "+"@[0] == '+');
    assert("&"@[0] == '&' && "-"@[0] == '-');
    assert("&"@[0] == '&' && "*"@[0] == '*');
    assert("&"@[0] == '&' && "/"@[0] == '/');
    assert("&"@[0] == '&' && "="@[0] == '=');
    assert("&"@[0] == '&' && "<"@[0] == '<');
    assert("&"@[0] == '&' && ">"@[0] == '>');
    assert("&"@[0] == '&' && "|"@[0] == '|');
    assert("&"@[0] == '&' && "^"@[0] == '^');
    assert("^"@[0] == '^' && "|"@[0] == '|');
    assert("<<u"@[1] == '<' && "<=u"@[1] == '=');
    assert("<<u"@[0] == '<' && ">=u"@[0] == '>');
    assert("<<u"@[0] == '<' && ">>u"@[0] == '>');
    assert("<<u"@[0] == '<' && "i32"@[0] == 'i');
    assert(">>u"@[0] == '>' && "i32"@[0] == 'i');
    assert("bytes_view"@[0] == 'b' && "vec_u8.len"@[0] == 'v');
    assert("bytes_view"@[0] == 'b' && "vec_u8.get"@[0] == 'v');
    assert("bytes_view"@[0] == 'b' && "view.slice"@[0] == 'v');
    let e = builtin_entries();
    let a = bin_op_names().map_values(
        |n: Seq<char>| mono_v(n, seq![("a"@, "i32"@), ("b"@, "i32"@)], "i32"@),
    );
    assert(bin_op_names().len() == 22);
    assert(a.len() == 22);
    assert(e.len() == 36);
    if i < 22 {
        assert(e[i] == a[i]);
    }
        if i == 0 {
            assert(bin_op_names()[0] == "+"@);
            assert(e[0] == a[0]);
            assert(e[0].name == "+"@);
        } else if i == 1 {
            assert(bin_op_names()[1] == "-"@);
            assert(e[1] == a[1]);
            assert(e[1].name == "-"@);
        } else if i == 2 {
            assert(bin_op_names()[2] == "*"@);
            assert(e[2] == a[2]);
            assert(e[2].name == "*"@);
        } else if i == 3 {
            assert(bin_op_names()[3] == "/"@);
            assert(e[3] == a[3]);
            assert(e[3].name == "/"@);
        } else if i == 4 {
            assert(bin_op_names()[4] == "%"@);
            assert(e[4] == a[4]);
            assert(e[4].name == "%"@);
        } else if i == 5 {
            assert(bin_op_names()[5] == "="@);
            assert(e[5] == a[5]);
            assert(e[5].name == "="@);
        } else if i == 6 {
            assert(bin_op_names()[6] == "!="@);
            assert(e[6] == a[6]);
            assert(e[6].name == "!="@);
        } else if i == 7 {
            assert(bin_op_names()[7] == "<"@);
            assert(e[7] == a[7]);
            assert(e[7].name == "<"@);
        } else if i == 8 {
            assert(bin_op_names()[8] == "<="@);
            assert(e[8] == a[8]);
            assert(e[8].name == "<="@);
        } else if i == 9 {
            assert(bin_op_names()[9] == ">"@);
            assert(e[9] == a[9]);
            assert(e[9].name == ">"@);
        } else if i == 10 {
            assert(bin_op_names()[10] == ">="@);
            assert(e[10] == a[10]);
            assert(e[10].name == ">="@);
        } else if i == 11 {
            assert(bin_op_names()[11] == "<u"@);
            assert(e[11] == a[11]);
            assert(e[11].name == "<u"@);
        } else if i == 12 {
            assert(bin_op_names()[12] == ">=u"@);
            assert(e[12] == a[12]);
            assert(e[12].name == ">=u"@);
        } else if i == 13 {
            assert(bin_op_names()[13] == ">u"@);
            assert(e[13] == a[13]);
            assert(e[13].name == ">u"@);
        } else if i == 14 {
            assert(bin_op_names()[14] == "<<u"@);
            assert(e[14] == a[14]);
            assert(e[14].name == "<<u"@);
        } else if i == 15 {
            assert(bin_op_names()[15] == ">>u"@);
            assert(e[15] == a[15]);
            assert(e[15].name == ">>u"@);
        } else if i == 16 {
            assert(bin_op_names()[16] == "<=u"@);
            assert(e[16] == a[16]);
            assert(e[16].name == "<=u"@);
        } else if i == 17 {
            assert(bin_op_names()[17] == "&"@);
            assert(e[17] == a[17]);
            assert(e[17].name == "&"@);
        } else if i == 18 {
            assert(bin_op_names()[18] == "|"@);
            assert(e[18] == a[18]);
            assert(e[18].name == "|"@);
        } else if i == 19 {
            assert(bin_op_names()[19] == "^"@);
            assert(e[19] == a[19]);
            assert(e[19].name == "^"@);
        } else if i == 20 {
            assert(bin_op_names()[20] == "&&"@);
            assert(e[20] == a[20]);
            assert(e[20].name == "&&"@);
        } else if i == 21 {
            assert(bin_op_names()[21] == "||"@);
            assert(e[21] == a[21]);
            assert(e[21].name == "||"@);
        } else if i == 22 {
            assert(e[22].name == "bytes.alloc"@);
        } else if i == 23 {
            assert(e[23].name == "bytes.len"@);
        } else if i == 24 {
            assert(e[24].name == "bytes.get_u8"@);
        } else if i == 25 {
            assert(e[25].name == "bytes.set_u8"@);
        } else if i == 26 {
            assert(e[26].name == "bytes.view"@);
        } else if i == 27 {
            assert(e[27].name == "bytes.subview"@);
        } else if i == 28 {
            assert(e[28].name == "view.len"@);
        } else if i == 29 {
            assert(e[29].name == "view.get_u8"@);
        } else if i == 30 {
            assert(e[30].name == "view.slice"@);
        } else if i == 31 {
            assert(e[31].name == "view.to_bytes"@);
        } else if i == 32 {
            assert(e[32].name == "vec_u8.with_capacity"@);
        } else if i == 33 {
            assert(e[33].name == "vec_u8.push"@);
        } else if i == 34 {
            assert(e[34].name == "vec_u8.extend_bytes"@);
        } else if i == 35 {
            assert(e[35].name == "vec_u8.into_bytes"@);
        }
}

/// Builtins are named by the type they work on: every `view.` builtin
/// takes a `bytes_view` first, and every `vec_u8.` builtin but the
/// constructor `vec_u8.with_capacity` takes a `vec_u8` first.
pub proof fn lemma_builtin_namespaces_take_their_type(i: int)
    requires
        0 <= i < builtin_entries().len(),
    ensures
        ({
            let e = builtin_entries()[i];
            &&& crate::text::seq_starts_with(e.name, "view."@) ==> e.params.len() >= 1 && e.params[0].1
                == TypeRefV::Named("bytes_view"@)
            &&& crate::text::seq_starts_with(e.name, "vec_u8."@) && e.name != "vec_u8.with_capacity"@ ==> e.params.len()
                >= 1 && e.params[0].1 == TypeRefV::Named("vec_u8"@)
        }),
{
    reveal_strlit("+");
    reveal_strlit("-");
    reveal_strlit("*");
    reveal_strlit("/");
    reveal_strlit("%");
    reveal_strlit("=");
    reveal_strlit("!=");
    reveal_strlit("<");
    reveal_strlit("<=");
    reveal_strlit(">");
    reveal_strlit(">=");
    reveal_strlit("<u");
    reveal_strlit(">=u");
    reveal_strlit(">u");
    reveal_strlit("<<u");
    reveal_strlit(">>u");
    reveal_strlit("<=u");
    reveal_strlit("&");
    reveal_strlit("|");
    reveal_strlit("^");
    reveal_strlit("&&");
    reveal_strlit("||");
    reveal_strlit("bytes.alloc");
    reveal_strlit("bytes.len");
    reveal_strlit("bytes.get_u8");
    reveal_strlit("bytes.set_u8");
    reveal_strlit("bytes.view");
    reveal_strlit("bytes.subview");
    reveal_strlit("view.len");
    reveal_strlit("view.get_u8");
    reveal_strlit("view.slice");
    reveal_strlit("view.to_bytes");
    reveal_strlit("vec_u8.with_capacity");
    reveal_strlit("vec_u8.push");
    reveal_strlit("vec_u8.extend_bytes");
    reveal_strlit("vec_u8.into_bytes");
    reveal_strlit("view.");
    reveal_strlit("vec_u8.");
    reveal_strlit("bytes_view");
    reveal_strlit("vec_u8");
    reveal_strlit("i32");
    assert("+"@.len() == 1);
    assert("-"@.len() == 1);
    assert("*"@.len() == 1);
    assert("/"@.len() == 1);
    assert("%"@.len() == 1);
    assert("="@.len() == 1);
    assert("!="@.len() == 2);
    assert("<"@.len() == 1);
    assert("<="@.len() == 2);
    assert(">"@.len() == 1);
    assert(">="@.len() == 2);
    assert("<u"@.len() == 2);
    assert(">=u"@.len() == 3);
    assert(">u"@.len() == 2);
    assert("<<u"@.len() == 3);
    assert(">>u"@.len() == 3);
    assert("<=u"@.len() == 3);
    assert("&"@.len() == 1);
    assert("|"@.len() == 1);
    assert("^"@.len() == 1);
    assert("&&"@.len() == 2);
    assert("||"@.len() == 2);
    assert("bytes.alloc"@.len() == 11);
    assert("bytes.len"@.len() == 9);
    assert("bytes.get_u8"@.len() == 12);
    assert("bytes.set_u8"@.len() == 12);
    assert("bytes.view"@.len() == 10);
    assert("bytes.subview"@.len() == 13);
    assert("view.len"@.len() == 8);
    assert("view.get_u8"@.len() == 11);
    assert("view.slice"@.len() == 10);
    assert("view.to_bytes"@.len() == 13);
    assert("vec_u8.with_capacity"@.len() == 20);
    assert("vec_u8.push"@.len() == 11);
    assert("vec_u8.extend_bytes"@.len() == 19);
    assert("vec_u8.into_bytes"@.len() == 17);
    assert("view."@.len() == 5);
    assert("vec_u8."@.len() == 7);
    assert("bytes_view"@.len() == 10);
    assert("vec_u8"@.len() == 6);
    assert("i32"@.len() == 3);
    assert("+"@[0] == '+' && "-"@[0] == '-');
    assert("+"@[0] == '+' && "/"@[0] == '/');
    assert("+"@[0] == '+' && "="@[0] == '=');
    assert("+"@[0] == '+' && "<"@[0] == '<');
    assert("+"@[0] == '+' && ">"@[0] == '>');
    assert("+"@[0] == '+' && "|"@[0] == '|');
    assert("+"@[0] == '+' && "^"@[0] == '^');
    assert("-"@[0] == '-' && "/"@[0] == '/');
    assert("-"@[0] == '-' && "="@[0] == '=');
    assert("-"@[0] == '-' && "<"@[0] == '<');
    assert("-"@[0] == '-' && ">"@[0] == '>');
    assert("-"@[0] == '-' && "|"@[0] == '|');
    assert("-"@[0] == '-' && "^"@[0] == '^');
    assert("*"@[0] == '*' && "+"@[0] == '+');
    assert("*"@[0] == '*' && "-"@[0] == '-');
    assert("*"@[0] == '*' && "/"@[0] == '/');
    assert("*"@[0] == '*' && "="@[0] == '=');
    assert("*"@[0] == '*' && "<"@[0] == '<');
    assert("*"@[0] == '*' && ">"@[0] == '>');
    assert("*"@[0] == '*' && "|"@[0] == '|');
    assert("*"@[0] == '*' && "^"@[0] == '^');
    assert("/"@[0] == '/' && "="@[0] == '=');
    assert("/"@[0] == '/' && "<"@[0] == '<');
    assert("/"@[0] == '/' && ">"@[0] == '>');
    assert("/"@[0] == '/' && "|"@[0] == '|');
    assert("/"@[0] == '/' && "^"@[0] == '^');
    assert("%"@[0] == '%' && "+"@[0] == '+');
    assert("%"@[0] == '%' && "-"@[0] == '-');
    assert("%"@[0] == '%' && "*"@[0] == '*');
    assert("%"@[0] == '%' && "/"@[0] == '/');
    assert("%"@[0] == '%' && "="@[0] == '=');
    assert("%"@[0] == '%' && "<"@[0] == '<');
    assert("%"@[0] == '%' && ">"@[0] == '>');
    assert("%"@[0] == '%' && "&"@[0] == '&');
    assert("%"@[0] == '%' && "|"@[0] == '|');
    assert("%"@[0] == '%' && "^"@[0] == '^');
    assert("="@[0] == '=' && ">"@[0] == '>');
    assert("="@[0] == '=' && "|"@[0] == '|');
    assert("="@[0] == '=' && "^"@[0] == '^');
    assert("!="@[0] == '!' && "<="@[0] == '<');
    assert("!="@[0] == '!' && ">="@[0] == '>');
    assert("!="@[0] == '!' && "<u"@[0] == '<');
    assert("!="@[0] == '!' && ">u"@[0] == '>');
    assert("!="@[0] == '!' && "&&"@[0] == '&');
    assert("!="@[0] == '!' && "||"@[0] == '|');
    assert("<"@[0] == '<' && "="@[0] == '=');
    assert("<"@[0] == '<' && ">"@[0] == '>');
    assert("<"@[0] == '<' && "|"@[0] == '|');
    assert("<"@[0] == '<' && "^"@[0] == '^');
    assert("<="@[0] == '<' && ">="@[0] == '>');
    assert("<="@[1] == '=' && "<u"@[1] == 'u');
    assert("<="@[0] == '<' && ">u"@[0] == '>');
    assert("<="@[0] == '<' && "||"@[0] == '|');
    assert(">"@[0] == '>' && "|"@[0] == '|');
    assert(">"@[0] == '>' && "^"@[0] == '^');
    assert(">="@[1] == '=' && ">u"@[1] == 'u');
    assert(">="@[0] == '>' && "||"@[0] == '|');
    assert("<u"@[0] == '<' && ">="@[0] == '>');
    assert("<u"@[0] == '<' && ">u"@[0] == '>');
    assert("<u"@[0] == '<' && "||"@[0] == '|');
    assert(">=u"@[1] == '=' && ">>u"@[1] == '>');
    assert(">=u"@[0] == '>' && "i32"@[0] == 'i');
    assert(">u"@[0] == '>' && "||"@[0] == '|');
    assert("<<u"@[0] == '<' && ">=u"@[0] == '>');
    assert("<<u"@[0] == '<' && ">>u"@[0] == '>');
    assert("<<u"@[1] == '<' && "<=u"@[1] == '=');
    assert("<<u"@[0] == '<' && "i32"@[0] == 'i');
    assert(">>u"@[0] == '>' && "i32"@[0] == 'i');
    assert("<=u"@[0] == '<' && ">=u"@[0] == '>');
    assert("<=u"@[0] == '<' && ">>u"@[0] == '>');
    assert("<=u"@[0] == '<' && "i32"@[0] == 'i');
    assert("&"@[0] == '&' && "+"@[0] == '+');
    assert("&"@[0] == '&' && "-"@[0] == '-');
    assert("&"@[0] == '&' && "*"@[0] == '*');
    assert("&"@[0] == '&' && "/"@[0] == '/');
    assert("&"@[0] == '&' && "="@[0] == '=');
    assert("&"@[0] == '&' && "<"@[0] == '<');
    assert("&"@[0] == '&' && ">"@[0] == '>');
    assert("&"@[0] == '&' && "|"@[0] == '|');
    assert("&"@[0] == '&' && "^"@[0] == '^');
    assert("^"@[0] == '^' && "|"@[0] == '|');
    assert("&&"@[0] == '&' && "<="@[0] == '<');
    assert("&&"@[0] == '&' && ">="@[0] == '>');
    assert("&&"@[0] == '&' && "<u"@[0] == '<');
    assert("&&"@[0] == '&' && ">u"@[0] == '>');
    assert("&&"@[0] == '&' && "||"@[0] == '|');
    assert("bytes.alloc"@[0] == 'b' && "view.get_u8"@[0] == 'v');
    assert("bytes.alloc"@[0] == 'b' && "vec_u8.push"@[0] == 'v');
    assert("bytes.get_u8"@[6] == 'g' && "bytes.set_u8"@[6] == 's');
    assert("bytes.view"@[0] == 'b' && "view.slice"@[0] == 'v');
    assert("bytes.view"@[5] == '.' && "bytes_view"@[5] == '_');
    assert("bytes.subview"@[0] == 'b' && "view.to_bytes"@[0] == 'v');
    assert("vec_u8.push"@[1] == 'e' && "view.get_u8"@[1] == 'i');
    assert("bytes_view"@[0] == 'b' && "view.slice"@[0] == 'v');
    let e = builtin_entries();
    let a = bin_op_names().map_values(
        |n: Seq<char>| mono_v(n, seq![("a"@, "i32"@), ("b"@, "i32"@)], "i32"@),
    );
    assert(bin_op_names().len() == 22);
    assert(a.len() == 22);
    assert(e.len() == 36);
        if i == 0 {
            assert(bin_op_names()[0] == "+"@);
            assert(e[0] == a[0]);
            assert(e[0].name == "+"@);
        } else if i == 1 {
            assert(bin_op_names()[1] == "-"@);
            assert(e[1] == a[1]);
            assert(e[1].name == "-"@);
        } else if i == 2 {
            assert(bin_op_names()[2] == "*"@);
            assert(e[2] == a[2]);
            assert(e[2].name == "*"@);
        } else if i == 3 {
            assert(bin_op_names()[3] == "/"@);
            assert(e[3] == a[3]);
            assert(e[3].name == "/"@);
        } else if i == 4 {
            assert(bin_op_names()[4] == "%"@);
            assert(e[4] == a[4]);
            assert(e[4].name == "%"@);
        } else if i == 5 {
            assert(bin_op_names()[5] == "="@);
            assert(e[5] == a[5]);
            assert(e[5].name == "="@);
        } else if i == 6 {
            assert(bin_op_names()[6] == "!="@);
            assert(e[6] == a[6]);
            assert(e[6].name == "!="@);
        } else if i == 7 {
            assert(bin_op_names()[7] == "<"@);
            assert(e[7] == a[7]);
            assert(e[7].name == "<"@);
        } else if i == 8 {
            assert(bin_op_names()[8] == "<="@);
            assert(e[8] == a[8]);
            assert(e[8].name == "<="@);
        } else if i == 9 {
            assert(bin_op_names()[9] == ">"@);
            assert(e[9] == a[9]);
            assert(e[9].name == ">"@);
        } else if i == 10 {
            assert(bin_op_names()[10] == ">="@);
            assert(e[10] == a[10]);
            assert(e[10].name == ">="@);
        } else if i == 11 {
            assert(bin_op_names()[11] == "<u"@);
            assert(e[11] == a[11]);
            assert(e[11].name == "<u"@);
        } else if i == 12 {
            assert(bin_op_names()[12] == ">=u"@);
            assert(e[12] == a[12]);
            assert(e[12].name == ">=u"@);
        } else if i == 13 {
            assert(bin_op_names()[13] == ">u"@);
            assert(e[13] == a[13]);
            assert(e[13].name == ">u"@);
        } else if i == 14 {
            assert(bin_op_names()[14] == "<<u"@);
            assert(e[14] == a[14]);
            assert(e[14].name == "<<u"@);
        } else if i == 15 {
            assert(bin_op_names()[15] == ">>u"@);
            assert(e[15] == a[15]);
            assert(e[15].name == ">>u"@);
        } else if i == 16 {
            assert(bin_op_names()[16] == "<=u"@);
            assert(e[16] == a[16]);
            assert(e[16].name == "<=u"@);
        } else if i == 17 {
            assert(bin_op_names()[17] == "&"@);
            assert(e[17] == a[17]);
            assert(e[17].name == "&"@);
        } else if i == 18 {
            assert(bin_op_names()[18] == "|"@);
            assert(e[18] == a[18]);
            assert(e[18].name == "|"@);
        } else if i == 19 {
            assert(bin_op_names()[19] == "^"@);
            assert(e[19] == a[19]);
            assert(e[19].name == "^"@);
        } else if i == 20 {
            assert(bin_op_names()[20] == "&&"@);
            assert(e[20] == a[20]);
            assert(e[20].name == "&&"@);
        } else if i == 21 {
            assert(bin_op_names()[21] == "||"@);
            assert(e[21] == a[21]);
            assert(e[21].name == "||"@);
        } else if i == 22 {
            assert(e[22].name == "bytes.alloc"@);
            assert(e[22].name.take(5)[0] != "view."@[0]);
            assert(e[22].name.take(7)[0] != "vec_u8."@[0]);
        } else if i == 23 {
            assert(e[23].name == "bytes.len"@);
            assert(e[23].name.take(5)[0] != "view."@[0]);
            assert(e[23].name.take(7)[0] != "vec_u8."@[0]);
        } else if i == 24 {
            assert(e[24].name == "bytes.get_u8"@);
            assert(e[24].name.take(5)[0] != "view."@[0]);
            assert(e[24].name.take(7)[0] != "vec_u8."@[0]);
        } else if i == 25 {
            assert(e[25].name == "bytes.set_u8"@);
            assert(e[25].name.take(5)[0] != "view."@[0]);
            assert(e[25].name.take(7)[0] != "vec_u8."@[0]);
        } else if i == 26 {
            assert(e[26].name == "bytes.view"@);
            assert(e[26].name.take(5)[0] != "view."@[0]);
            assert(e[26].name.take(7)[0] != "vec_u8."@[0]);
        } else if i == 27 {
            assert(e[27].name == "bytes.subview"@);
            assert(e[27].name.take(5)[0] != "view."@[0]);
            assert(e[27].name.take(7)[0] != "vec_u8."@[0]);
        } else if i == 28 {
            assert(e[28].name == "view.len"@);
            assert(e[28].name.take(5) =~= "view."@);
            assert(e[28].name.take(7)[1] != "vec_u8."@[1]);
        } else if i == 29 {
            assert(e[29].name == "view.get_u8"@);
            assert(e[29].name.take(5) =~= "view."@);
            assert(e[29].name.take(7)[1] != "vec_u8."@[1]);
        } else if i == 30 {
            assert(e[30].name == "view.slice"@);
            assert(e[30].name.take(5) =~= "view."@);
            assert(e[30].name.take(7)[1] != "vec_u8."@[1]);
        } else if i == 31 {
            assert(e[31].name == "view.to_bytes"@);
            assert(e[31].name.take(5) =~= "view."@);
            assert(e[31].name.take(7)[1] != "vec_u8."@[1]);
        } else if i == 32 {
            assert(e[32].name == "vec_u8.with_capacity"@);
            assert(e[32].name.take(5)[1] != "view."@[1]);
            assert(e[32].name.take(7) =~= "vec_u8."@);
        } else if i == 33 {
            assert(e[33].name == "vec_u8.push"@);
            assert(e[33].name.take(5)[1] != "view."@[1]);
            assert(e[33].name.take(7) =~= "vec_u8."@);
        } else if i == 34 {
            assert(e[34].name == "vec_u8.extend_bytes"@);
            assert(e[34].name.take(5)[1] != "view."@[1]);
            assert(e[34].name.take(7) =~= "vec_u8."@);
        } else if i == 35 {
            assert(e[35].name == "vec_u8.into_bytes"@);
            assert(e[35].name.take(5)[1] != "view."@[1]);
            assert(e[35].name.take(7) =~= "vec_u8."@);
        }
}

/// The first 22 builtins are the binary operators: each is an `i32`
/// operator that the WASM back end lowers to one instruction, or one of the
/// short-circuit logic operators `&&` and `||`, and each takes two `i32`
/// operands `a` and `b` and returns `i32`.
pub proof fn lemma_builtin_operators_are_i32_binary(i: int)
    requires
        0 <= i < 22,
    ensures
        ({
            let e = builtin_entries()[i];
            &&& crate::wasm_emit::emit_module::binop_head(e.name) is Some || e.name == "&&"@ || e.name == "||"@
            &&& e.params.len() == 2
            &&& e.params[0] == ("a"@, TypeRefV::Named("i32"@), None::<Seq<char>>)
            &&& e.params[1] == ("b"@, TypeRefV::Named("i32"@), None::<Seq<char>>)
            &&& e.result == TypeRefV::Named("i32"@)
        }),
{
    reveal_strlit("+");
    reveal_strlit("-");
    reveal_strlit("*");
    reveal_strlit("/");
    reveal_strlit("%");
    reveal_strlit("&");
    reveal_strlit("|");
    reveal_strlit("^");
    reveal_strlit("=");
    reveal_strlit("!=");
    reveal_strlit("<");
    reveal_strlit("<u");
    reveal_strlit("<=u");
    reveal_strlit(">=u");
    reveal_strlit("<=");
    reveal_strlit(">=");
    reveal_strlit(">");
    reveal_strlit(">u");
    reveal_strlit("<<u");
    reveal_strlit(">>u");
    reveal_strlit("&&");
    reveal_strlit("||");
    reveal_strlit("i32");
    reveal_strlit("a");
    reveal_strlit("b");
    assert("+"@.len() == 1);
    assert("-"@.len() == 1);
    assert("*"@.len() == 1);
    assert("/"@.len() == 1);
    assert("%"@.len() == 1);
    assert("&"@.len() == 1);
    assert("|"@.len() == 1);
    assert("^"@.len() == 1);
    assert("="@.len() == 1);
    assert("!="@.len() == 2);
    assert("<"@.len() == 1);
    assert("<u"@.len() == 2);
    assert("<=u"@.len() == 3);
    assert(">=u"@.len() == 3);
    assert("<="@.len() == 2);
    assert(">="@.len() == 2);
    assert(">"@.len() == 1);
    assert(">u"@.len() == 2);
    assert("<<u"@.len() == 3);
    assert(">>u"@.len() == 3);
    assert("&&"@.len() == 2);
    assert("||"@.len() == 2);
    assert("i32"@.len() == 3);
    assert("a"@.len() == 1);
    assert("b"@.len() == 1);
    assert("+"@[0] == '+' && "-"@[0] == '-');
    assert("+"@[0] == '+' && "/"@[0] == '/');
    assert("+"@[0] == '+' && "|"@[0] == '|');
    assert("+"@[0] == '+' && "^"@[0] == '^');
    assert("+"@[0] == '+' && "="@[0] == '=');
    assert("+"@[0] == '+' && "<"@[0] == '<');
    assert("+"@[0] == '+' && ">"@[0] == '>');
    assert("+"@[0] == '+' && "a"@[0] == 'a');
    assert("+"@[0] == '+' && "b"@[0] == 'b');
    assert("-"@[0] == '-' && "/"@[0] == '/');
    assert("-"@[0] == '-' && "|"@[0] == '|');
    assert("-"@[0] == '-' && "^"@[0] == '^');
    assert("-"@[0] == '-' && "="@[0] == '=');
    assert("-"@[0] == '-' && "<"@[0] == '<');
    assert("-"@[0] == '-' && ">"@[0] == '>');
    assert("-"@[0] == '-' && "a"@[0] == 'a');
    assert("-"@[0] == '-' && "b"@[0] == 'b');
    assert("*"@[0] == '*' && "+"@[0] == '+');
    assert("*"@[0] == '*' && "-"@[0] == '-');
    assert("*"@[0] == '*' && "/"@[0] == '/');
    assert("*"@[0] == '*' && "|"@[0] == '|');
    assert("*"@[0] == '*' && "^"@[0] == '^');
    assert("*"@[0] == '*' && "="@[0] == '=');
    assert("*"@[0] == '*' && "<"@[0] == '<');
    assert("*"@[0] == '*' && ">"@[0] == '>');
    assert("*"@[0] == '*' && "a"@[0] == 'a');
    assert("*"@[0] == '*' && "b"@[0] == 'b');
    assert("/"@[0] == '/' && "|"@[0] == '|');
    assert("/"@[0] == '/' && "^"@[0] == '^');
    assert("/"@[0] == '/' && "="@[0] == '=');
    assert("/"@[0] == '/' && "<"@[0] == '<');
    assert("/"@[0] == '/' && ">"@[0] == '>');
    assert("/"@[0] == '/' && "a"@[0] == 'a');
    assert("/"@[0] == '/' && "b"@[0] == 'b');
    assert("%"@[0] == '%' && "+"@[0] == '+');
    assert("%"@[0] == '%' && "-"@[0] == '-');
    assert("%"@[0] == '%' && "*"@[0] == '*');
    assert("%"@[0] == '%' && "/"@[0] == '/');
    assert("%"@[0] == '%' && "&"@[0] == '&');
    assert("%"@[0] == '%' && "|"@[0] == '|');
    assert("%"@[0] == '%' && "^"@[0] == '^');
    assert("%"@[0] == '%' && "="@[0] == '=');
    assert("%"@[0] == '%' && "<"@[0] == '<');
    assert("%"@[0] == '%' && ">"@[0] == '>');
    assert("%"@[0] == '%' && "a"@[0] == 'a');
    assert("%"@[0] == '%' && "b"@[0] == 'b');
    assert("&"@[0] == '&' && "+"@[0] == '+');
    assert("&"@[0] == '&' && "-"@[0] == '-');
    assert("&"@[0] == '&' && "*"@[0] == '*');
    assert("&"@[0] == '&' && "/"@[0] == '/');
    assert("&"@[0] == '&' && "|"@[0] == '|');
    assert("&"@[0] == '&' && "^"@[0] == '^');
    assert("&"@[0] == '&' && "="@[0] == '=');
    assert("&"@[0] == '&' && "<"@[0] == '<');
    assert("&"@[0] == '&' && ">"@[0] == '>');
    assert("&"@[0] == '&' && "a"@[0] == 'a');
    assert("&"@[0] == '&' && "b"@[0] == 'b');
    assert("^"@[0] == '^' && "|"@[0] == '|');
    assert("^"@[0] == '^' && "a"@[0] == 'a');
    assert("^"@[0] == '^' && "b"@[0] == 'b');
    assert("="@[0] == '=' && "|"@[0] == '|');
    assert("="@[0] == '=' && "^"@[0] == '^');
    assert("="@[0] == '=' && ">"@[0] == '>');
    assert("="@[0] == '=' && "a"@[0] == 'a');
    assert("="@[0] == '=' && "b"@[0] == 'b');
    assert("!="@[0] == '!' && "<u"@[0] == '<');
    assert("!="@[0] == '!' && "<="@[0] == '<');
    assert("!="@[0] == '!' && ">="@[0] == '>');
    assert("!="@[0] == '!' && ">u"@[0] == '>');
    assert("!="@[0] == '!' && "&&"@[0] == '&');
    assert("!="@[0] == '!' && "||"@[0] == '|');
    assert("<"@[0] == '<' && "|"@[0] == '|');
    assert("<"@[0] == '<' && "^"@[0] == '^');
    assert("<"@[0] == '<' && "="@[0] == '=');
    assert("<"@[0] == '<' && ">"@[0] == '>');
    assert("<"@[0] == '<' && "a"@[0] == 'a');
    assert("<"@[0] == '<' && "b"@[0] == 'b');
    assert("<u"@[0] == '<' && ">="@[0] == '>');
    assert("<u"@[0] == '<' && ">u"@[0] == '>');
    assert("<u"@[0] == '<' && "||"@[0] == '|');
    assert("<=u"@[0] == '<' && ">=u"@[0] == '>');
    assert("<=u"@[0] == '<' && ">>u"@[0] == '>');
    assert("<=u"@[0] == '<' && "i32"@[0] == 'i');
    assert(">=u"@[1] == '=' && ">>u"@[1] == '>');
    assert(">=u"@[0] == '>' && "i32"@[0] == 'i');
    assert("<="@[1] == '=' && "<u"@[1] == 'u');
    assert("<="@[0] == '<' && ">="@[0] == '>');
    assert("<="@[0] == '<' && ">u"@[0] == '>');
    assert("<="@[0] == '<' && "||"@[0] == '|');
    assert(">="@[1] == '=' && ">u"@[1] == 'u');
    assert(">="@[0] == '>' && "||"@[0] == '|');
    assert(">"@[0] == '>' && "|"@[0] == '|');
    assert(">"@[0] == '>' && "^"@[0] == '^');
    assert(">"@[0] == '>' && "a"@[0] == 'a');
    assert(">"@[0] == '>' && "b"@[0] == 'b');
    assert(">u"@[0] == '>' && "||"@[0] == '|');
    assert("<<u"@[1] == '<' && "<=u"@[1] == '=');
    assert("<<u"@[0] == '<' && ">=u"@[0] == '>');
    assert("<<u"@[0] == '<' && ">>u"@[0] == '>');
    assert("<<u"@[0] == '<' && "i32"@[0] == 'i');
    assert(">>u"@[0] == '>' && "i32"@[0] == 'i');
    assert("&&"@[0] == '&' && "<u"@[0] == '<');
    assert("&&"@[0] == '&' && "<="@[0] == '<');
    assert("&&"@[0] == '&' && ">="@[0] == '>');
    assert("&&"@[0] == '&' && ">u"@[0] == '>');
    assert("&&"@[0] == '&' && "||"@[0] == '|');
    assert("a"@[0] == 'a' && "|"@[0] == '|');
    assert("a"@[0] == 'a' && "b"@[0] == 'b');
    assert("b"@[0] == 'b' && "|"@[0] == '|');
    let e = builtin_entries();
    let a = bin_op_names().map_values(
        |n: Seq<char>| mono_v(n, seq![("a"@, "i32"@), ("b"@, "i32"@)], "i32"@),
    );
    assert(bin_op_names().len() == 22);
    assert(a.len() == 22);
    if i == 0 {
        assert(bin_op_names()[0] == "+"@);
        assert(e[0] == a[0]);
    } else if i == 1 {
        assert(bin_op_names()[1] == "-"@);
        assert(e[1] == a[1]);
    } else if i == 2 {
        assert(bin_op_names()[2] == "*"@);
        assert(e[2] == a[2]);
    } else if i == 3 {
        assert(bin_op_names()[3] == "/"@);
        assert(e[3] == a[3]);
    } else if i == 4 {
        assert(bin_op_names()[4] == "%"@);
        assert(e[4] == a[4]);
    } else if i == 5 {
        assert(bin_op_names()[5] == "="@);
        assert(e[5] == a[5]);
    } else if i == 6 {
        assert(bin_op_names()[6] == "!="@);
        assert(e[6] == a[6]);
    } else if i == 7 {
        assert(bin_op_names()[7] == "<"@);
        assert(e[7] == a[7]);
    } else if i == 8 {
        assert(bin_op_names()[8] == "<="@);
        assert(e[8] == a[8]);
    } else if i == 9 {
        assert(bin_op_names()[9] == ">"@);
        assert(e[9] == a[9]);
    } else if i == 10 {
        assert(bin_op_names()[10] == ">="@);
        assert(e[10] == a[10]);
    } else if i == 11 {
        assert(bin_op_names()[11] == "<u"@);
        assert(e[11] == a[11]);
    } else if i == 12 {
        assert(bin_op_names()[12] == ">=u"@);
        assert(e[12] == a[12]);
    } else if i == 13 {
        assert(bin_op_names()[13] == ">u"@);
        assert(e[13] == a[13]);
    } else if i == 14 {
        assert(bin_op_names()[14] == "<<u"@);
        assert(e[14] == a[14]);
    } else if i == 15 {
        assert(bin_op_names()[15] == ">>u"@);
        assert(e[15] == a[15]);
    } else if i == 16 {
        assert(bin_op_names()[16] == "<=u"@);
        assert(e[16] == a[16]);
    } else if i == 17 {
        assert(bin_op_names()[17] == "&"@);
        assert(e[17] == a[17]);
    } else if i == 18 {
        assert(bin_op_names()[18] == "|"@);
        assert(e[18] == a[18]);
    } else if i == 19 {
        assert(bin_op_names()[19] == "^"@);
        assert(e[19] == a[19]);
    } else if i == 20 {
        assert(bin_op_names()[20] == "&&"@);
        assert(e[20] == a[20]);
    } else if i == 21 {
        assert(bin_op_names()[21] == "||"@);
        assert(e[21] == a[21]);
    }
}

/// No two signatures share a name.
pub open spec fn names_unique(s: Seq<FnSigAst>) -> bool {
    forall|i: int, j: int| 0 <= i < j < s.len() ==> (#[trigger] s[i]).name@ != (#[trigger] s[j]).name@
}

/// A list of signatures as a map from name to signature.
pub open spec fn sigs_table(s: Seq<FnSigAst>) -> Map<Seq<char>, FnSigV> {
    Map::new(
        |k: Seq<char>| exists|i: int| 0 <= i < s.len() && s[i].name@ == k,
        |k: Seq<char>| {
            let i = choose|i: int| 0 <= i < s.len() && s[i].name@ == k;
            sig_view(s[i])
        },
    )
}

proof fn lemma_table_at(s: Seq<FnSigAst>, i: int)
    requires
        names_unique(s),
        0 <= i < s.len(),
    ensures
        sigs_table(s).dom().contains(s[i].name@),
        sigs_table(s)[s[i].name@] == sig_view(s[i]),
{
    let k = s[i].name@;
    assert(0 <= i < s.len() && s[i].name@ == k);
    let j = choose|j: int| 0 <= j < s.len() && s[j].name@ == k;
    if j < i {
        assert(s[j].name@ != s[i].name@);
    } else if i < j {
        assert(s[i].name@ != s[j].name@);
    }
}

proof fn lemma_table_replace(s: Seq<FnSigAst>, i: int, x: FnSigAst)
    requires
        names_unique(s),
        0 <= i < s.len(),
        s[i].name@ == x.name@,
    ensures
        names_unique(s.update(i, x)),
        sigs_table(s.update(i, x)) == sigs_table(s).insert(x.name@, sig_view(x)),
{
    let t = s.update(i, x);
    assert forall|a: int, b: int| 0 <= a < b < t.len() implies (#[trigger] t[a]).name@ != (#[trigger] t[b]).name@ by {
        assert(s[a].name@ != s[b].name@);
    }
    let lhs = sigs_table(t);
    let rhs = sigs_table(s).insert(x.name@, sig_view(x));
    assert forall|k: Seq<char>| lhs.dom().contains(k) <==> rhs.dom().contains(k) by {
        if lhs.dom().contains(k) {
            let j = choose|j: int| 0 <= j < t.len() && t[j].name@ == k;
            if j != i {
                lemma_table_at(s, j);
            }
        }
        if sigs_table(s).dom().contains(k) {
            let j = choose|j: int| 0 <= j < s.len() && s[j].name@ == k;
            assert(t[j].name@ == k);
        }
        if k == x.name@ {
            lemma_table_at(t, i);
        }
    }
    assert forall|k: Seq<char>| #[trigger] lhs.dom().contains(k) implies lhs[k] == rhs[k] by {
        let j = choose|j: int| 0 <= j < t.len() && t[j].name@ == k;
        lemma_table_at(t, j);
        if j != i {
            lemma_table_at(s, j);
        }
    }
    assert(lhs =~= rhs);
}

proof fn lemma_table_push(s: Seq<FnSigAst>, x: FnSigAst)
    requires
        names_unique(s),
        forall|j: int| 0 <= j < s.len() ==> (#[trigger] s[j]).name@ != x.name@,
    ensures
        names_unique(s.push(x)),
        sigs_table(s.push(x)) == sigs_table(s).insert(x.name@, sig_view(x)),
{
    let t = s.push(x);
    assert forall|a: int, b: int| 0 <= a < b < t.len() implies (#[trigger] t[a]).name@ != (#[trigger] t[b]).name@ by {
        if b < s.len() {
            assert(s[a].name@ != s[b].name@);
        } else {
            assert(s[a].name@ != x.name@);
        }
    }
    let lhs = sigs_table(t);
    let rhs = sigs_table(s).insert(x.name@, sig_view(x));
    assert forall|k: Seq<char>| lhs.dom().contains(k) <==> rhs.dom().contains(k) by {
        if lhs.dom().contains(k) {
            let j = choose|j: int| 0 <= j < t.len() && t[j].name@ == k;
            if j < s.len() {
                lemma_table_at(s, j);
            }
        }
        if sigs_table(s).dom().contains(k) {
            let j = choose|j: int| 0 <= j < s.len() && s[j].name@ == k;
            assert(t[j].name@ == k);
        }
        if k == x.name@ {
            lemma_table_at(t, s.len() as int);
        }
    }
    assert forall|k: Seq<char>| #[trigger] lhs.dom().contains(k) implies lhs[k] == rhs[k] by {
        let j = choose|j: int| 0 <= j < t.len() && t[j].name@ == k;
        lemma_table_at(t, j);
        if j < s.len() {
            lemma_table_at(s, j);
        }
    }
    assert(lhs =~= rhs);
}

impl TypecheckSigs {
    /// Names are unique.
    pub closed spec fn wf(&self) -> bool {
        names_unique(self.sigs@)
    }

    /// The table as a map from function name to signature.
    pub closed spec fn table(&self) -> Map<Seq<char>, FnSigV> {
        sigs_table(self.sigs@)
    }

    pub fn new() -> (r: Self)
        ensures
            r.wf(),
            r.table() == Map::<Seq<char>, FnSigV>::empty(),
    {
        let r = TypecheckSigs { sigs: Vec::new() };
        assert(r.table() =~= Map::<Seq<char>, FnSigV>::empty());
        r
    }

    /// Adds or replaces the signature named `s.name`.
    fn insert(&mut self, s: FnSigAst)
        requires
            old(self).wf(),
        ensures
            final(self).wf(),
            final(self).table() == old(self).table().insert(s.name@, sig_view(s)),
    {
        let ghost old_sigs = self.sigs@;
        let ghost sv = sig_view(s);
        let ghost nm = s.name@;
        let mut i: usize = 0;
        while i < self.sigs.len()
            invariant
                self.sigs@ == old_sigs,
                old(self).sigs@ == old_sigs,
                names_unique(old_sigs),
                i <= self.sigs.len(),
                forall|j: int| 0 <= j < i ==> (#[trigger] old_sigs[j]).name@ != nm,
                nm == s.name@,
                sv == sig_view(s),
            decreases self.sigs.len() - i,
        {
            if str_eq(self.sigs[i].name.as_str(), s.name.as_str()) {
                self.sigs.set(i, s);
                proof {
                    lemma_table_replace(old_sigs, i as int, s);
                }
                return;
            }
            i = i + 1;
        }
        self.sigs.push(s);
        proof {
            lemma_table_push(old_sigs, s);
        }
    }

    /// The signature named `name`, if any.
    pub fn get(&self, name: &str) -> (r: Option<&FnSigAst>)
        requires
            self.wf(),
        ensures
            match r {
                Some(s) => self.table().contains_key(name@) && self.table()[name@] == sig_view(*s)
                    && s.name@ == name@,
                None => !self.table().contains_key(name@),
            },
    {
        let mut i: usize = 0;
        while i < self.sigs.len()
            invariant
                self.wf(),
                i <= self.sigs.len(),
                forall|j: int| 0 <= j < i ==> (#[trigger] self.sigs@[j]).name@ != name@,
            decreases self.sigs.len() - i,
        {
            if str_eq(self.sigs[i].name.as_str(), name) {
                proof {
                    let j = choose|j: int| 0 <= j < self.sigs@.len() && self.sigs@[j].name@ == name@;
                    if j != i {
                        if j < i {
                            assert(self.sigs@[j].name@ != self.sigs@[i as int].name@);
                        } else {
                            assert(self.sigs@[i as int].name@ != self.sigs@[j].name@);
                        }
                    }
                }
                return Some(&self.sigs[i]);
            }
            i = i + 1;
        }
        None
    }
}

} // verus!

verus! {

pub fn clone_opt_string(o: &Option<String>) -> (r: Option<String>)
    ensures
        opt_str(r) == opt_str(*o),
{
    match o {
        Some(s) => Some(s.clone()),
        None => None,
    }
}

/// A monomorphic builtin signature.
pub open spec fn mono_v(
    name: Seq<char>,
    params: Seq<(Seq<char>, Seq<char>)>,
    result: Seq<char>,
) -> FnSigV {
    FnSigV {
        name,
        type_params: Seq::empty(),
        params: params.map_values(
            |p: (Seq<char>, Seq<char>)| (p.0, TypeRefV::Named(p.1), None::<Seq<char>>),
        ),
        result: TypeRefV::Named(result),
        result_brand: None,
        decl_ptr: Seq::empty(),
        is_async: false,
    }
}

pub open spec fn bin_op_names() -> Seq<Seq<char>> {
    seq![
        "+"@, "-"@, "*"@, "/"@, "%"@, "="@, "!="@, "<"@, "<="@, ">"@, ">="@, "<u"@, ">=u"@, ">u"@,
        "<<u"@, ">>u"@, "<=u"@, "&"@, "|"@, "^"@, "&&"@, "||"@,
    ]
}

/// The builtin operators and byte/view/vector primitives, in insertion order.
pub open spec fn builtin_entries() -> Seq<FnSigV> {
    bin_op_names().map_values(
        |n: Seq<char>| mono_v(n, seq![("a"@, "i32"@), ("b"@, "i32"@)], "i32"@),
    ) + seq![
        mono_v("bytes.alloc"@, seq![("n"@, "i32"@)], "bytes"@),
        mono_v("bytes.len"@, seq![("b"@, "bytes_view"@)], "i32"@),
        mono_v("bytes.get_u8"@, seq![("b"@, "bytes_view"@), ("i"@, "i32"@)], "i32"@),
        mono_v("bytes.set_u8"@, seq![("b"@, "bytes"@), ("i"@, "i32"@), ("v"@, "i32"@)], "bytes"@),
        mono_v("bytes.view"@, seq![("b"@, "bytes"@)], "bytes_view"@),
        mono_v(
            "bytes.subview"@,
            seq![("b"@, "bytes"@), ("start"@, "i32"@), ("len"@, "i32"@)],
            "bytes_view"@,
        ),
        mono_v("view.len"@, seq![("v"@, "bytes_view"@)], "i32"@),
        mono_v("view.get_u8"@, seq![("v"@, "bytes_view"@), ("i"@, "i32"@)], "i32"@),
        mono_v(
            "view.slice"@,
            seq![("v"@, "bytes_view"@), ("start"@, "i32"@), ("len"@, "i32"@)],
            "bytes_view"@,
        ),
        mono_v("view.to_bytes"@, seq![("v"@, "bytes_view"@)], "bytes"@),
        mono_v("vec_u8.with_capacity"@, seq![("cap"@, "i32"@)], "vec_u8"@),
        mono_v("vec_u8.push"@, seq![("v"@, "vec_u8"@), ("x"@, "i32"@)], "vec_u8"@),
        mono_v("vec_u8.extend_bytes"@, seq![("v"@, "vec_u8"@), ("b"@, "bytes_view"@)], "vec_u8"@),
        mono_v("vec_u8.into_bytes"@, seq![("v"@, "vec_u8"@)], "bytes"@),
    ]
}

fn mono(name: &str, params: &[(&str, &str)], result: &str) -> (r: FnSigAst)
    ensures
        sig_view(r) == mono_v(
            name@,
            params@.map_values(|p: (&str, &str)| (p.0@, p.1@)),
            result@,
        ),
{
    let mut ps: Vec<(String, TypeRef, Option<String>)> = Vec::new();
    let mut i: usize = 0;
    while i < params.len()
        invariant
            i <= params.len(),
            ps@.len() == i,
            forall|j: int| 0 <= j < i ==> {
                let p = #[trigger] ps@[j];
                &&& p.0@ == params@[j].0@
                &&& p.1@ == TypeRefV::Named(params@[j].1@)
                &&& p.2 is None
            },
        decreases params.len() - i,
    {
        let (n, t) = params[i];
        ps.push((n.to_string(), TypeRef::Named(t.to_string()), None));
        i = i + 1;
    }
    let r = FnSigAst {
        name: name.to_string(),
        type_params: Vec::new(),
        params: ps,
        result: TypeRef::Named(result.to_string()),
        result_brand: None,
        decl_ptr: String::new(),
        is_async: false,
    };
    proof {
        let sv = sig_view(r);
        let mv = mono_v(name@, params@.map_values(|p: (&str, &str)| (p.0@, p.1@)), result@);
        assert(sv.params =~= mv.params);
        assert(sv.type_params =~= mv.type_params);
    }
    r
}

fn mono1(name: &str, p0: &str, t0: &str, result: &str) -> (r: FnSigAst)
    ensures
        sig_view(r) == mono_v(name@, seq![(p0@, t0@)], result@),
{
    let ps = [(p0, t0)];
    assert(ps@.map_values(|p: (&str, &str)| (p.0@, p.1@)) =~= seq![(p0@, t0@)]);
    mono(name, &ps, result)
}

fn mono2(name: &str, p0: &str, t0: &str, p1: &str, t1: &str, result: &str) -> (r: FnSigAst)
    ensures
        sig_view(r) == mono_v(name@, seq![(p0@, t0@), (p1@, t1@)], result@),
{
    let ps = [(p0, t0), (p1, t1)];
    assert(ps@.map_values(|p: (&str, &str)| (p.0@, p.1@)) =~= seq![(p0@, t0@), (p1@, t1@)]);
    mono(name, &ps, result)
}

fn mono3(name: &str, p0: &str, t0: &str, p1: &str, t1: &str, p2: &str, t2: &str, result: &str) -> (r: FnSigAst)
    ensures
        sig_view(r) == mono_v(name@, seq![(p0@, t0@), (p1@, t1@), (p2@, t2@)], result@),
{
    let ps = [(p0, t0), (p1, t1), (p2, t2)];
    assert(ps@.map_values(|p: (&str, &str)| (p.0@, p.1@)) =~= seq![(p0@, t0@), (p1@, t1@), (p2@, t2@)]);
    mono(name, &ps, result)
}

fn builtin_sigs() -> (r: Vec<FnSigAst>)
    ensures
        r@.map_values(|s: FnSigAst| sig_view(s)) == builtin_entries(),
{
    let ops = [
        "+", "-", "*", "/", "%", "=", "!=", "<", "<=", ">", ">=", "<u", ">=u", ">u", "<<u", ">>u",
        "<=u", "&", "|", "^", "&&", "||",
    ];
    let bin_params = [("a", "i32"), ("b", "i32")];
    let ghost bp = bin_params@.map_values(|p: (&str, &str)| (p.0@, p.1@));
    proof {
        assert(bp =~= seq![("a"@, "i32"@), ("b"@, "i32"@)]);
    }
    let mut v: Vec<FnSigAst> = Vec::new();
    let mut i: usize = 0;
    while i < ops.len()
        invariant
            i <= ops.len(),
            bp == bin_params@.map_values(|p: (&str, &str)| (p.0@, p.1@)),
            bp == seq![("a"@, "i32"@), ("b"@, "i32"@)],
            v@.len() == i,
            forall|j: int| 0 <= j < i ==> sig_view(#[trigger] v@[j]) == mono_v(ops@[j]@, bp, "i32"@),
        decreases ops.len() - i,
    {
        v.push(mono(ops[i], &bin_params, "i32"));
        i = i + 1;
    }
    let ghost nb = v@.len();
    v.push(mono1("bytes.alloc", "n", "i32", "bytes"));
    v.push(mono1("bytes.len", "b", "bytes_view", "i32"));
    v.push(mono2("bytes.get_u8", "b", "bytes_view", "i", "i32", "i32"));
    v.push(mono3("bytes.set_u8", "b", "bytes", "i", "i32", "v", "i32", "bytes"));
    v.push(mono1("bytes.view", "b", "bytes", "bytes_view"));
    v.push(mono3("bytes.subview", "b", "bytes", "start", "i32", "len", "i32", "bytes_view"));
    v.push(mono1("view.len", "v", "bytes_view", "i32"));
    v.push(mono2("view.get_u8", "v", "bytes_view", "i", "i32", "i32"));
    v.push(mono3("view.slice", "v", "bytes_view", "start", "i32", "len", "i32", "bytes_view"));
    v.push(mono1("view.to_bytes", "v", "bytes_view", "bytes"));
    v.push(mono1("vec_u8.with_capacity", "cap", "i32", "vec_u8"));
    v.push(mono2("vec_u8.push", "v", "vec_u8", "x", "i32", "vec_u8"));
    v.push(mono2("vec_u8.extend_bytes", "v", "vec_u8", "b", "bytes_view", "vec_u8"));
    v.push(mono1("vec_u8.into_bytes", "v", "vec_u8", "bytes"));
    proof {
        let got = v@.map_values(|s: FnSigAst| sig_view(s));
        let want = builtin_entries();
        assert(ops@.map_values(|o: &str| o@) =~= bin_op_names());
        assert forall|j: int| 0 <= j < 22 implies got[j] == want[j] by {
            assert(ops@[j]@ == bin_op_names()[j]);
        }
        assert forall|j: int| 22 <= j < 36 implies got[j] == want[j] by {}
        assert(got.len() == want.len());
        assert(got =~= want);
    }
    v
}

impl TypecheckSigs {
    fn insert_all(&mut self, v: Vec<FnSigAst>)
        requires
            old(self).wf(),
        ensures
            final(self).wf(),
            final(self).table() == insert_sigs(
                old(self).table(),
                v@.map_values(|s: FnSigAst| sig_view(s)),
            ),
    {
        let ghost start = self.table();
        let ghost vs = v@.map_values(|s: FnSigAst| sig_view(s));
        let mut v = v;
        let mut rest: Vec<FnSigAst> = Vec::new();
        // Take the items in order by reversing once.
        while v.len() > 0
            invariant
                rest@.len() + v@.len() == vs.len(),
                forall|j: int| 0 <= j < v@.len() ==> sig_view(#[trigger] v@[j]) == vs[j],
                forall|j: int| 0 <= j < rest@.len() ==> sig_view(#[trigger] rest@[j]) == vs[vs.len() - 1 - j],
            decreases v.len(),
        {
            let s = v.pop().unwrap();
            rest.push(s);
        }
        let mut k: usize = 0;
        let n = rest.len();
        assert(vs.take(0) =~= Seq::<FnSigV>::empty());
        while rest.len() > 0
            invariant
                self.wf(),
                n == vs.len(),
                k + rest@.len() == n,
                forall|j: int| 0 <= j < rest@.len() ==> sig_view(#[trigger] rest@[j]) == vs[n - 1 - j],
                self.table() == insert_sigs(start, vs.take(k as int)),
            decreases rest.len(),
        {
            let s = rest.pop().unwrap();
            proof {
                assert(sig_view(s) == vs[k as int]);
                assert(vs.take(k + 1) =~= vs.take(k as int).push(vs[k as int]));
                lemma_insert_sigs_push(start, vs.take(k as int), vs[k as int]);
            }
            self.insert(s);
            k = k + 1;
        }
        assert(vs.take(n as int) =~= vs);
    }

    pub fn add_builtins(&mut self)
        requires
            old(self).wf(),
        ensures
            final(self).wf(),
            final(self).table() == insert_sigs(old(self).table(), builtin_entries()),
    {
        let b = builtin_sigs();
        self.insert_all(b);
    }
}

} // verus!

verus! {

/// One declaration slot precedes the others in a module with exports.
pub open spec fn export_slots(file: X07AstFile) -> nat {
    if file.kind == X07AstKind::Module && file.exports@.len() > 0 { 1 } else { 0 }
}

pub open spec fn param_v(p: FnParam) -> (Seq<char>, TypeRefV, Option<Seq<char>>) {
    (p.name@, p.ty@, opt_str(p.brand))
}

pub open spec fn decl_ptr_v(idx: nat) -> Seq<char> {
    "/decls/"@ + dec(idx)
}

pub open spec fn extern_sig_v(f: ExternFunctionDecl, idx: nat) -> FnSigV {
    FnSigV {
        name: f.name@,
        type_params: Seq::empty(),
        params: f.params@.map_values(|p: FnParam| param_v(p)),
        result: match f.result {
            Some(t) => t@,
            None => TypeRefV::Named("i32"@),
        },
        result_brand: None,
        decl_ptr: decl_ptr_v(idx),
        is_async: false,
    }
}

pub open spec fn defn_sig_v(f: FunctionDecl, idx: nat, is_async: bool) -> FnSigV {
    FnSigV {
        name: f.name@,
        type_params: f.type_params@.map_values(|t: TypeParam| t.name@),
        params: f.params@.map_values(|p: FnParam| param_v(p)),
        result: f.result@,
        result_brand: opt_str(f.result_brand),
        decl_ptr: decl_ptr_v(idx),
        is_async,
    }
}

/// The signatures a file declares, in declaration order: externs, then
/// `defn`s, then `defasync`s, each pointing at its `/decls/<i>` entry.
pub open spec fn file_entries(file: X07AstFile) -> Seq<FnSigV> {
    let slots = export_slots(file);
    let ne = file.extern_functions@.len();
    let nf = file.functions@.len();
    Seq::new(ne, |i: int| extern_sig_v(file.extern_functions@[i], slots + i as nat)) + Seq::new(
        nf,
        |i: int| defn_sig_v(file.functions@[i], slots + ne + i as nat, false),
    ) + Seq::new(
        file.async_functions@.len(),
        |i: int| defn_sig_v(file.async_functions@[i], slots + ne + nf + i as nat, true),
    )
}

/// The declaration counts of a file fit the index arithmetic.
pub open spec fn decl_counts_fit(file: X07AstFile) -> bool {
    1 + file.extern_functions@.len() + file.functions@.len() + file.async_functions@.len()
        <= usize::MAX
}

fn export_slots_of(file: &X07AstFile) -> (r: usize)
    ensures
        r == export_slots(*file),
{
    if file.kind == X07AstKind::Module && file.exports.len() > 0 { 1 } else { 0 }
}

fn decl_ptr(idx: usize) -> (r: String)
    ensures
        r@ == decl_ptr_v(idx as nat),
{
    let d = u64_to_dec(idx as u64);
    concat_str("/decls/", d.as_str())
}

fn copy_params(ps: &Vec<FnParam>) -> (r: Vec<(String, TypeRef, Option<String>)>)
    ensures
        r@.map_values(|p: (String, TypeRef, Option<String>)| (p.0@, p.1@, opt_str(p.2)))
            == ps@.map_values(|p: FnParam| param_v(p)),
{
    let mut out: Vec<(String, TypeRef, Option<String>)> = Vec::new();
    let mut i: usize = 0;
    while i < ps.len()
        invariant
            i <= ps.len(),
            out@.len() == i,
            forall|j: int| 0 <= j < i ==> {
                let p = #[trigger] out@[j];
                (p.0@, p.1@, opt_str(p.2)) == param_v(ps@[j])
            },
        decreases ps.len() - i,
    {
        let p = &ps[i];
        out.push((p.name.clone(), p.ty.clone(), clone_opt_string(&p.brand)));
        i = i + 1;
    }
    proof {
        assert(out@.map_values(|p: (String, TypeRef, Option<String>)| (p.0@, p.1@, opt_str(p.2)))
            =~= ps@.map_values(|p: FnParam| param_v(p)));
    }
    out
}

fn copy_type_params(ps: &Vec<TypeParam>) -> (r: Vec<TypeParam>)
    ensures
        r@.map_values(|t: TypeParam| t.name@) == ps@.map_values(|t: TypeParam| t.name@),
{
    let mut out: Vec<TypeParam> = Vec::new();
    let mut i: usize = 0;
    while i < ps.len()
        invariant
            i <= ps.len(),
            out@.len() == i,
            forall|j: int| 0 <= j < i ==> (#[trigger] out@[j]).name@ == ps@[j].name@,
        decreases ps.len() - i,
    {
        out.push(TypeParam { name: ps[i].name.clone() });
        i = i + 1;
    }
    proof {
        assert(out@.map_values(|t: TypeParam| t.name@) =~= ps@.map_values(|t: TypeParam| t.name@));
    }
    out
}

fn defn_sig(f: &FunctionDecl, idx: usize, is_async: bool) -> (r: FnSigAst)
    ensures
        sig_view(r) == defn_sig_v(*f, idx as nat, is_async),
{
    let r = FnSigAst {
        name: f.name.clone(),
        type_params: copy_type_params(&f.type_params),
        params: copy_params(&f.params),
        result: f.result.clone(),
        result_brand: clone_opt_string(&f.result_brand),
        decl_ptr: decl_ptr(idx),
        is_async,
    };
    r
}

fn extern_sig(f: &ExternFunctionDecl, idx: usize) -> (r: FnSigAst)
    ensures
        sig_view(r) == extern_sig_v(*f, idx as nat),
{
    let result = match &f.result {
        Some(t) => t.clone(),
        None => TypeRef::Named("i32".to_string()),
    };
    let r = FnSigAst {
        name: f.name.clone(),
        type_params: Vec::new(),
        params: copy_params(&f.params),
        result,
        result_brand: None,
        decl_ptr: decl_ptr(idx),
        is_async: false,
    };
    assert(sig_view(r).type_params =~= Seq::<Seq<char>>::empty());
    r
}

/// The signatures `file` declares, as `add_file_sigs` inserts them.
fn file_sigs(file: &X07AstFile) -> (r: Vec<FnSigAst>)
    requires
        decl_counts_fit(*file),
    ensures
        r@.map_values(|s: FnSigAst| sig_view(s)) == file_entries(*file),
{
    let slots = export_slots_of(file);
    let ghost want = file_entries(*file);
    let ne = file.extern_functions.len();
    let nf = file.functions.len();
    let na = file.async_functions.len();
    let mut v: Vec<FnSigAst> = Vec::new();
    let mut i: usize = 0;
    while i < ne
        invariant
            decl_counts_fit(*file),
            slots == export_slots(*file),
            ne == file.extern_functions@.len(),
            nf == file.functions@.len(),
            na == file.async_functions@.len(),
            want == file_entries(*file),
            i <= ne,
            v@.len() == i,
            forall|j: int| 0 <= j < i ==> sig_view(#[trigger] v@[j]) == want[j],
        decreases ne - i,
    {
        v.push(extern_sig(&file.extern_functions[i], slots + i));
        i = i + 1;
    }
    let mut i: usize = 0;
    while i < nf
        invariant
            decl_counts_fit(*file),
            slots == export_slots(*file),
            ne == file.extern_functions@.len(),
            nf == file.functions@.len(),
            na == file.async_functions@.len(),
            want == file_entries(*file),
            i <= nf,
            v@.len() == ne + i,
            forall|j: int| 0 <= j < ne + i ==> sig_view(#[trigger] v@[j]) == want[j],
        decreases nf - i,
    {
        v.push(defn_sig(&file.functions[i], slots + ne + i, false));
        i = i + 1;
    }
    let mut i: usize = 0;
    while i < na
        invariant
            decl_counts_fit(*file),
            slots == export_slots(*file),
            ne == file.extern_functions@.len(),
            nf == file.functions@.len(),
            na == file.async_functions@.len(),
            want == file_entries(*file),
            i <= na,
            v@.len() == ne + nf + i,
            forall|j: int| 0 <= j < ne + nf + i ==> sig_view(#[trigger] v@[j]) == want[j],
        decreases na - i,
    {
        v.push(defn_sig(&file.async_functions[i], slots + ne + nf + i, true));
        i = i + 1;
    }
    proof {
        assert(v@.map_values(|s: FnSigAst| sig_view(s)) =~= want);
    }
    v
}

impl TypecheckSigs {
    pub fn add_file(&mut self, file: &X07AstFile)
        requires
            old(self).wf(),
            decl_counts_fit(*file),
        ensures
            final(self).wf(),
            final(self).table() == insert_sigs(old(self).table(), file_entries(*file)),
    {
        let v = file_sigs(file);
        self.insert_all(v);
    }

    pub fn for_file_with_builtins(file: &X07AstFile) -> (r: Self)
        requires
            decl_counts_fit(*file),
        ensures
            r.wf(),
            r.table() == insert_sigs(
                insert_sigs(Map::<Seq<char>, FnSigV>::empty(), file_entries(*file)),
                builtin_entries(),
            ),
    {
        let mut sigs = Self::new();
        sigs.add_file(file);
        sigs.add_builtins();
        sigs
    }
}

} // verus!

verus! {

/// The type term a type reference denotes (`never` is the bottom type).
pub open spec fn type_ref_term(t: TypeRefV) -> TyT
    decreases t, 0nat,
{
    match t {
        TypeRefV::Named(s) => if s == "never"@ { TyT::Never } else { TyT::Named(s) },
        TypeRefV::Var(n) => TyT::TParam(n),
        TypeRefV::App(h, args) => TyT::App(h, type_ref_terms(args)),
    }
}

pub open spec fn type_ref_terms(s: Seq<TypeRefV>) -> Seq<TyT>
    decreases s, 1nat,
{
    if s.len() == 0 {
        Seq::empty()
    } else {
        type_ref_terms(s.drop_last()).push(type_ref_term(s.last()))
    }
}

/// The last binding of `k` in an association list.
pub open spec fn assoc_lookup(s: Seq<(Seq<char>, TyT)>, k: Seq<char>) -> Option<TyT>
    decreases s.len(),
{
    if s.len() == 0 {
        None
    } else if s.last().0 == k {
        Some(s.last().1)
    } else {
        assoc_lookup(s.drop_last(), k)
    }
}

pub open spec fn assoc_view(s: Seq<(String, TyTerm)>) -> Seq<(Seq<char>, TyT)> {
    s.map_values(|p: (String, TyTerm)| (p.0@, p.1@))
}

/// Like `type_ref_term`, with type variables replaced as `subst` binds them.
pub open spec fn type_ref_term_with(t: TypeRefV, subst: Seq<(Seq<char>, TyT)>) -> TyT
    decreases t, 0nat,
{
    match t {
        TypeRefV::Named(s) => if s == "never"@ { TyT::Never } else { TyT::Named(s) },
        TypeRefV::Var(n) => match assoc_lookup(subst, n) {
            Some(x) => x,
            None => TyT::TParam(n),
        },
        TypeRefV::App(h, args) => TyT::App(h, type_ref_terms_with(args, subst)),
    }
}

pub open spec fn type_ref_terms_with(s: Seq<TypeRefV>, subst: Seq<(Seq<char>, TyT)>) -> Seq<TyT>
    decreases s, 1nat,
{
    if s.len() == 0 {
        Seq::empty()
    } else {
        type_ref_terms_with(s.drop_last(), subst).push(type_ref_term_with(s.last(), subst))
    }
}

pub proof fn lemma_view_terms_index(s: Seq<TyTerm>)
    ensures
        crate::unify::view_terms(s).len() == s.len(),
        forall|i: int| 0 <= i < s.len() ==> #[trigger] crate::unify::view_terms(s)[i] == s[i]@,
{
    crate::unify::lemma_view_terms(s);
}

pub(crate) fn type_ref_to_term(tr: &TypeRef) -> (r: TyTerm)
    ensures
        r@ == type_ref_term(tr@),
    decreases tr@,
{
    match tr {
        TypeRef::Named(s) => {
            if str_eq(s.as_str(), "never") {
                TyTerm::Never
            } else {
                TyTerm::Named(s.clone())
            }
        },
        TypeRef::Var(name) => TyTerm::TParam(name.clone()),
        TypeRef::App { head, args } => {
            proof {
                lemma_view_type_refs(args@);
            }
            let ghost vs = view_type_refs(args@);
            let mut out: Vec<TyTerm> = Vec::with_capacity(args.len());
            let mut i: usize = 0;
            while i < args.len()
                invariant
                    tr@ == TypeRefV::App(head@, vs),
                    vs == view_type_refs(args@),
                    vs.len() == args@.len(),
                    forall|j: int| 0 <= j < args@.len() ==> #[trigger] vs[j] == args@[j]@,
                    i <= args.len(),
                    out@.len() == i,
                    crate::unify::view_terms(out@) == type_ref_terms(vs.take(i as int)),
                decreases args.len() - i,
            {
                proof {
                    assert(vs[i as int] == args@[i as int]@);
                    assert(tr@->App_1 == vs);
                    assert(decreases_to!(tr@ => tr@->App_1));
                    assert(decreases_to!(vs => vs[i as int]));
                }
                let c = type_ref_to_term(&args[i]);
                let ghost before = out@;
                out.push(c);
                proof {
                    lemma_view_terms_index(before);
                    lemma_view_terms_index(out@);
                    assert(vs.take(i + 1).drop_last() =~= vs.take(i as int));
                    assert(crate::unify::view_terms(out@) =~= crate::unify::view_terms(before).push(c@));
                }
                i = i + 1;
            }
            assert(vs.take(args.len() as int) =~= vs);
            TyTerm::App { head: head.clone(), args: out }
        },
    }
}

pub(crate) fn assoc_get(subst: &Vec<(String, TyTerm)>, name: &str) -> (r: Option<TyTerm>)
    ensures
        match r {
            Some(t) => assoc_lookup(assoc_view(subst@), name@) == Some(t@),
            None => assoc_lookup(assoc_view(subst@), name@) is None,
        },
{
    let mut i: usize = subst.len();
    assert(assoc_view(subst@).take(i as int) =~= assoc_view(subst@));
    while i > 0
        invariant
            i <= subst.len(),
            assoc_lookup(assoc_view(subst@), name@) == assoc_lookup(
                assoc_view(subst@).take(i as int),
                name@,
            ),
        decreases i,
    {
        let ghost t = assoc_view(subst@).take(i as int);
        assert(t.last() == (subst@[i - 1].0@, subst@[i - 1].1@));
        assert(t.drop_last() =~= assoc_view(subst@).take(i - 1));
        if str_eq(subst[i - 1].0.as_str(), name) {
            return Some(subst[i - 1].1.clone());
        }
        i = i - 1;
    }
    None
}

pub(crate) fn type_ref_to_term_with_subst(tr: &TypeRef, subst: &Vec<(String, TyTerm)>) -> (r: TyTerm)
    ensures
        r@ == type_ref_term_with(tr@, assoc_view(subst@)),
    decreases tr@,
{
    match tr {
        TypeRef::Named(s) => {
            if str_eq(s.as_str(), "never") {
                TyTerm::Never
            } else {
                TyTerm::Named(s.clone())
            }
        },
        TypeRef::Var(name) => match assoc_get(subst, name.as_str()) {
            Some(t) => t,
            None => TyTerm::TParam(name.clone()),
        },
        TypeRef::App { head, args } => {
            proof {
                lemma_view_type_refs(args@);
            }
            let ghost vs = view_type_refs(args@);
            let ghost sv = assoc_view(subst@);
            let mut out: Vec<TyTerm> = Vec::with_capacity(args.len());
            let mut i: usize = 0;
            while i < args.len()
                invariant
                    tr@ == TypeRefV::App(head@, vs),
                    vs == view_type_refs(args@),
                    sv == assoc_view(subst@),
                    vs.len() == args@.len(),
                    forall|j: int| 0 <= j < args@.len() ==> #[trigger] vs[j] == args@[j]@,
                    i <= args.len(),
                    out@.len() == i,
                    crate::unify::view_terms(out@) == type_ref_terms_with(vs.take(i as int), sv),
                decreases args.len() - i,
            {
                proof {
                    assert(vs[i as int] == args@[i as int]@);
                    assert(tr@->App_1 == vs);
                    assert(decreases_to!(tr@ => tr@->App_1));
                    assert(decreases_to!(vs => vs[i as int]));
                }
                let c = type_ref_to_term_with_subst(&args[i], subst);
                let ghost before = out@;
                out.push(c);
                proof {
                    lemma_view_terms_index(before);
                    lemma_view_terms_index(out@);
                    assert(vs.take(i + 1).drop_last() =~= vs.take(i as int));
                    assert(crate::unify::view_terms(out@) =~= crate::unify::view_terms(before).push(c@));
                }
                i = i + 1;
            }
            assert(vs.take(args.len() as int) =~= vs);
            TyTerm::App { head: head.clone(), args: out }
        },
    }
}

/// `t` mentions some metavariable.
pub open spec fn has_meta(t: TyT) -> bool {
    exists|x: u32| crate::unify::occurs(t, x)
}

pub(crate) fn term_has_meta(tt: &TyTerm) -> (r: bool)
    ensures
        r == has_meta(tt@),
    decreases tt@,
{
    match tt {
        TyTerm::Meta(id) => {
            assert(crate::unify::occurs(tt@, *id));
            true
        },
        TyTerm::Named(_) | TyTerm::Never | TyTerm::TParam(_) => false,
        TyTerm::App { args, .. } => {
            proof {
                lemma_view_terms_index(args@);
            }
            let ghost vs = crate::unify::view_terms(args@);
            let mut i: usize = 0;
            while i < args.len()
                invariant
                    tt@ == TyT::App(tt@->App_0, vs),
                    vs == crate::unify::view_terms(args@),
                    vs.len() == args@.len(),
                    forall|j: int| 0 <= j < args@.len() ==> #[trigger] vs[j] == args@[j]@,
                    i <= args.len(),
                    forall|j: int| 0 <= j < i ==> !has_meta(#[trigger] vs[j]),
                decreases args.len() - i,
            {
                proof {
                    assert(vs[i as int] == args@[i as int]@);
                    assert(tt@->App_1 == vs);
                    assert(decreases_to!(tt@ => tt@->App_1));
                    assert(decreases_to!(vs => vs[i as int]));
                }
                if term_has_meta(&args[i]) {
                    proof {
                        let x = choose|x: u32| crate::unify::occurs(vs[i as int], x);
                        assert(crate::unify::occurs(tt@, x));
                    }
                    return true;
                }
                i = i + 1;
            }
            proof {
                assert forall|x: u32| !crate::unify::occurs(tt@, x) by {
                    if crate::unify::occurs(tt@, x) {
                        let j = choose|j: int| 0 <= j < vs.len() && crate::unify::occurs(#[trigger] vs[j], x);
                        assert(!has_meta(vs[j]));
                    }
                }
            }
            false
        },
    }
}

} // verus!

verus! {

/// The type reference a fully known term spells (none for a term with a metavariable).
pub open spec fn term_type_ref(t: TyT) -> Option<TypeRefV>
    decreases t, 0nat,
{
    match t {
        TyT::Meta(_) => None,
        TyT::Never => Some(TypeRefV::Named("never"@)),
        TyT::Named(s) => Some(TypeRefV::Named(s)),
        TyT::TParam(n) => Some(TypeRefV::Var(n)),
        TyT::App(h, args) => match terms_type_refs(args) {
            Some(rs) => Some(TypeRefV::App(h, rs)),
            None => None,
        },
    }
}

pub open spec fn terms_type_refs(s: Seq<TyT>) -> Option<Seq<TypeRefV>>
    decreases s, 1nat,
{
    if s.len() == 0 {
        Some(Seq::empty())
    } else {
        match terms_type_refs(s.drop_last()) {
            Some(init) => match term_type_ref(s.last()) {
                Some(r) => Some(init.push(r)),
                None => None,
            },
            None => None,
        }
    }
}

pub proof fn lemma_terms_type_refs_none_prefix(s: Seq<TyT>, n: int)
    requires
        0 <= n <= s.len(),
        terms_type_refs(s.take(n)) is None,
    ensures
        terms_type_refs(s) is None,
    decreases s.len() - n,
{
    if n < s.len() {
        assert(s.take(n + 1).drop_last() =~= s.take(n));
        lemma_terms_type_refs_none_prefix(s, n + 1);
    } else {
        assert(s.take(n) =~= s);
    }
}

pub(crate) fn term_to_type_ref(tt: &TyTerm) -> (r: Option<TypeRef>)
    ensures
        match r {
            Some(x) => term_type_ref(tt@) == Some(x@),
            None => term_type_ref(tt@) is None,
        },
    decreases tt@,
{
    match tt {
        TyTerm::Meta(_) => None,
        TyTerm::Never => Some(TypeRef::Named("never".to_string())),
        TyTerm::Named(s) => Some(TypeRef::Named(s.clone())),
        TyTerm::TParam(name) => Some(TypeRef::Var(name.clone())),
        TyTerm::App { head, args } => {
            proof {
                lemma_view_terms_index(args@);
            }
            let ghost vs = crate::unify::view_terms(args@);
            let mut out: Vec<TypeRef> = Vec::with_capacity(args.len());
            let mut i: usize = 0;
            while i < args.len()
                invariant
                    tt@ == TyT::App(head@, vs),
                    vs == crate::unify::view_terms(args@),
                    vs.len() == args@.len(),
                    forall|j: int| 0 <= j < args@.len() ==> #[trigger] vs[j] == args@[j]@,
                    i <= args.len(),
                    terms_type_refs(vs.take(i as int)) == Some(view_type_refs(out@)),
                decreases args.len() - i,
            {
                proof {
                    assert(vs[i as int] == args@[i as int]@);
                    assert(tt@->App_1 == vs);
                    assert(decreases_to!(tt@ => tt@->App_1));
                    assert(decreases_to!(vs => vs[i as int]));
                    assert(vs.take(i + 1).drop_last() =~= vs.take(i as int));
                    assert(vs.take(i + 1).last() == vs[i as int]);
                }
                match term_to_type_ref(&args[i]) {
                    Some(x) => {
                        let ghost before = out@;
                        out.push(x);
                        proof {
                            lemma_view_type_refs(before);
                            lemma_view_type_refs(out@);
                            assert(view_type_refs(out@) =~= view_type_refs(before).push(x@));
                        }
                    },
                    None => {
                        proof {
                            lemma_terms_type_refs_none_prefix(vs, i + 1);
                        }
                        return None;
                    },
                }
                i = i + 1;
            }
            assert(vs.take(args.len() as int) =~= vs);
            Some(TypeRef::App { head: head.clone(), args: out })
        },
    }
}

/// The JSON-like rendering of a type term used in diagnostic data.
pub open spec fn term_value(t: TyT) -> DV
    decreases t, 0nat,
{
    match t {
        TyT::Named(s) => DV::Str(s),
        TyT::Never => DV::Str("never"@),
        TyT::TParam(n) => DV::Arr(seq![DV::Str("t"@), DV::Str(n)]),
        TyT::Meta(id) => DV::Arr(seq![DV::Str("meta"@), DV::Int(id as int)]),
        TyT::App(h, args) => DV::Arr(seq![DV::Str(h)] + terms_values(args)),
    }
}

pub open spec fn terms_values(s: Seq<TyT>) -> Seq<DV>
    decreases s, 1nat,
{
    if s.len() == 0 {
        Seq::empty()
    } else {
        terms_values(s.drop_last()).push(term_value(s.last()))
    }
}

pub(crate) fn ty_term_to_value_like(tt: &TyTerm) -> (r: DiagValue)
    ensures
        r@ == term_value(tt@),
    decreases tt@,
{
    match tt {
        TyTerm::Named(s) => DiagValue::Str(s.clone()),
        TyTerm::Never => DiagValue::Str("never".to_string()),
        TyTerm::TParam(name) => {
            let r = dv_array(vec![DiagValue::Str("t".to_string()), DiagValue::Str(name.clone())]);
            assert(r@ == term_value(tt@)) by {
                assert(r@->Arr_0 =~= seq![DV::Str("t"@), DV::Str(name@)]);
            }
            r
        },
        TyTerm::Meta(id) => {
            let r = dv_array(vec![DiagValue::Str("meta".to_string()), DiagValue::UInt(*id as u64)]);
            assert(r@ == term_value(tt@)) by {
                assert(r@->Arr_0 =~= seq![DV::Str("meta"@), DV::Int(*id as int)]);
            }
            r
        },
        TyTerm::App { head, args } => {
            proof {
                lemma_view_terms_index(args@);
            }
            let ghost vs = crate::unify::view_terms(args@);
            let mut items: Vec<DiagValue> = Vec::new();
            items.push(DiagValue::Str(head.clone()));
            let mut i: usize = 0;
            while i < args.len()
                invariant
                    tt@ == TyT::App(head@, vs),
                    vs == crate::unify::view_terms(args@),
                    vs.len() == args@.len(),
                    forall|j: int| 0 <= j < args@.len() ==> #[trigger] vs[j] == args@[j]@,
                    i <= args.len(),
                    items@.map_values(|x: DiagValue| x@) == seq![DV::Str(head@)] + terms_values(
                        vs.take(i as int),
                    ),
                decreases args.len() - i,
            {
                proof {
                    assert(vs[i as int] == args@[i as int]@);
                    assert(tt@->App_1 == vs);
                    assert(decreases_to!(tt@ => tt@->App_1));
                    assert(decreases_to!(vs => vs[i as int]));
                    assert(vs.take(i + 1).drop_last() =~= vs.take(i as int));
                    assert(vs.take(i + 1).last() == vs[i as int]);
                }
                let ghost before = items@;
                let c = ty_term_to_value_like(&args[i]);
                items.push(c);
                proof {
                    assert(c@ == term_value(vs[i as int]));
                    assert(terms_values(vs.take(i + 1)) == terms_values(vs.take(i as int)).push(
                        term_value(vs[i as int]),
                    ));
                    assert(items@ == before.push(c));
                    assert(items@.map_values(|x: DiagValue| x@) =~= before.map_values(
                        |x: DiagValue| x@,
                    ).push(c@));
                    assert(items@.map_values(|x: DiagValue| x@) =~= seq![DV::Str(head@)]
                        + terms_values(vs.take(i + 1)));
                }
                i = i + 1;
            }
            assert(vs.take(args.len() as int) =~= vs);
            dv_array(items)
        },
    }
}

/// The JSON rendering of a type reference (`["t", name]` for a variable,
/// `[head, args...]` for an application).
pub open spec fn type_ref_value(t: TypeRefV) -> DV
    decreases t, 0nat,
{
    match t {
        TypeRefV::Named(s) => DV::Str(s),
        TypeRefV::Var(n) => DV::Arr(seq![DV::Str("t"@), DV::Str(n)]),
        TypeRefV::App(h, args) => DV::Arr(seq![DV::Str(h)] + type_refs_values(args)),
    }
}

pub open spec fn type_refs_values(s: Seq<TypeRefV>) -> Seq<DV>
    decreases s, 1nat,
{
    if s.len() == 0 {
        Seq::empty()
    } else {
        type_refs_values(s.drop_last()).push(type_ref_value(s.last()))
    }
}

pub fn type_ref_to_value(tr: &TypeRef) -> (r: DiagValue)
    ensures
        r@ == type_ref_value(tr@),
    decreases tr@,
{
    match tr {
        TypeRef::Named(s) => DiagValue::Str(s.clone()),
        TypeRef::Var(name) => {
            let r = dv_array(vec![DiagValue::Str("t".to_string()), DiagValue::Str(name.clone())]);
            assert(r@ == type_ref_value(tr@)) by {
                assert(r@->Arr_0 =~= seq![DV::Str("t"@), DV::Str(name@)]);
            }
            r
        },
        TypeRef::App { head, args } => {
            proof {
                lemma_view_type_refs(args@);
            }
            let ghost vs = view_type_refs(args@);
            let mut items: Vec<DiagValue> = Vec::new();
            items.push(DiagValue::Str(head.clone()));
            let mut i: usize = 0;
            while i < args.len()
                invariant
                    tr@ == TypeRefV::App(head@, vs),
                    vs == view_type_refs(args@),
                    vs.len() == args@.len(),
                    forall|j: int| 0 <= j < args@.len() ==> #[trigger] vs[j] == args@[j]@,
                    i <= args.len(),
                    items@.map_values(|x: DiagValue| x@) == seq![DV::Str(head@)] + type_refs_values(
                        vs.take(i as int),
                    ),
                decreases args.len() - i,
            {
                proof {
                    assert(vs[i as int] == args@[i as int]@);
                    assert(tr@->App_1 == vs);
                    assert(decreases_to!(tr@ => tr@->App_1));
                    assert(decreases_to!(vs => vs[i as int]));
                    assert(vs.take(i + 1).drop_last() =~= vs.take(i as int));
                    assert(vs.take(i + 1).last() == vs[i as int]);
                }
                let ghost before = items@;
                let c = type_ref_to_value(&args[i]);
                items.push(c);
                proof {
                    assert(c@ == type_ref_value(vs[i as int]));
                    assert(type_refs_values(vs.take(i + 1)) == type_refs_values(vs.take(i as int)).push(
                        type_ref_value(vs[i as int]),
                    ));
                    assert(items@ == before.push(c));
                    assert(items@.map_values(|x: DiagValue| x@) =~= before.map_values(
                        |x: DiagValue| x@,
                    ).push(c@));
                    assert(items@.map_values(|x: DiagValue| x@) =~= seq![DV::Str(head@)]
                        + type_refs_values(vs.take(i + 1)));
                }
                i = i + 1;
            }
            assert(vs.take(args.len() as int) =~= vs);
            dv_array(items)
        },
    }
}

/// The JSON rendering of an expression.
pub open spec fn expr_value(e: ExprV) -> DV
    decreases e, 0nat,
{
    match e {
        ExprV::Int(v, _) => DV::Int(v as int),
        ExprV::Ident(n, _) => DV::Str(n),
        ExprV::List(items, _) => DV::Arr(exprs_values(items)),
    }
}

pub open spec fn exprs_values(s: Seq<ExprV>) -> Seq<DV>
    decreases s, 1nat,
{
    if s.len() == 0 {
        Seq::empty()
    } else {
        exprs_values(s.drop_last()).push(expr_value(s.last()))
    }
}

pub fn expr_to_value(e: &Expr) -> (r: DiagValue)
    ensures
        r@ == expr_value(e@),
    decreases e@,
{
    match e {
        Expr::Int { value, .. } => DiagValue::Int(*value as i64),
        Expr::Ident { name, .. } => DiagValue::Str(name.clone()),
        Expr::List { items, ptr } => {
            proof {
                lemma_view_exprs(items@);
            }
            let ghost vs = view_exprs(items@);
            let mut out: Vec<DiagValue> = Vec::with_capacity(items.len());
            let mut i: usize = 0;
            while i < items.len()
                invariant
                    e@ == ExprV::List(vs, ptr@),
                    vs == view_exprs(items@),
                    vs.len() == items@.len(),
                    forall|j: int| 0 <= j < items@.len() ==> #[trigger] vs[j] == items@[j]@,
                    i <= items.len(),
                    out@.map_values(|x: DiagValue| x@) == exprs_values(vs.take(i as int)),
                decreases items.len() - i,
            {
                proof {
                    assert(vs[i as int] == items@[i as int]@);
                    assert(e@->List_0 == vs);
                    assert(decreases_to!(e@ => e@->List_0));
                    assert(decreases_to!(vs => vs[i as int]));
                    assert(vs.take(i + 1).drop_last() =~= vs.take(i as int));
                }
                let c = expr_to_value(&items[i]);
                out.push(c);
                proof {
                    assert(out@.map_values(|x: DiagValue| x@) =~= exprs_values(vs.take(i + 1)));
                }
                i = i + 1;
            }
            assert(vs.take(items.len() as int) =~= vs);
            dv_array(out)
        },
    }
}

} // verus!

verus! {

pub(crate) fn contract_has_clauses(
    pre: &Vec<ContractClauseAst>,
    post: &Vec<ContractClauseAst>,
    inv: &Vec<ContractClauseAst>,
) -> (r: bool)
    ensures
        r == !(pre@.len() == 0 && post@.len() == 0 && inv@.len() == 0),
{
    !(pre.len() == 0 && post.len() == 0 && inv.len() == 0)
}

/// Pointers of the identifiers named `needle` in `e`, in pre-order.
pub open spec fn ident_ptrs(e: ExprV, needle: Seq<char>) -> Seq<Seq<char>>
    decreases e, 0nat,
{
    match e {
        ExprV::Ident(name, p) => if name == needle { seq![p] } else { Seq::empty() },
        ExprV::List(items, _) => ident_ptrs_items(items, needle),
        ExprV::Int(_, _) => Seq::empty(),
    }
}

pub open spec fn ident_ptrs_items(s: Seq<ExprV>, needle: Seq<char>) -> Seq<Seq<char>>
    decreases s, 1nat,
{
    if s.len() == 0 {
        Seq::empty()
    } else {
        ident_ptrs_items(s.drop_last(), needle) + ident_ptrs(s.last(), needle)
    }
}

pub(crate) fn contract_collect_ident_ptrs(expr: &Expr, needle: &str, out: &mut Vec<String>)
    ensures
        final(out)@.map_values(|s: String| s@) == old(out)@.map_values(|s: String| s@)
            + ident_ptrs(expr@, needle@),
    decreases expr@,
{
    match expr {
        Expr::Ident { name, ptr } => {
            let ghost o = out@.map_values(|s: String| s@);
            if str_eq(name.as_str(), needle) {
                out.push(ptr.clone());
                assert(out@.map_values(|s: String| s@) =~= o + seq![ptr@]);
            } else {
                assert(o + Seq::<Seq<char>>::empty() =~= o);
            }
        },
        Expr::List { items, ptr } => {
            proof {
                lemma_view_exprs(items@);
            }
            let ghost vs = view_exprs(items@);
            let ghost o = out@.map_values(|s: String| s@);
            let mut i: usize = 0;
            assert(vs.take(0) =~= Seq::<ExprV>::empty());
            assert(o + ident_ptrs_items(vs.take(0), needle@) =~= o);
            while i < items.len()
                invariant
                    expr@ == ExprV::List(vs, ptr@),
                    vs == view_exprs(items@),
                    vs.len() == items@.len(),
                    forall|j: int| 0 <= j < items@.len() ==> #[trigger] vs[j] == items@[j]@,
                    i <= items.len(),
                    out@.map_values(|s: String| s@) == o + ident_ptrs_items(vs.take(i as int), needle@),
                decreases items.len() - i,
            {
                proof {
                    assert(vs[i as int] == items@[i as int]@);
                    assert(expr@->List_0 == vs);
                    assert(decreases_to!(expr@ => expr@->List_0));
                    assert(decreases_to!(vs => vs[i as int]));
                    assert(vs.take(i + 1).drop_last() =~= vs.take(i as int));
                }
                contract_collect_ident_ptrs(&items[i], needle, out);
                proof {
                    assert(ident_ptrs_items(vs.take(i + 1), needle@) =~= ident_ptrs_items(vs.take(i as int), needle@) + ident_ptrs(vs[i as int], needle@));
                }
                i = i + 1;
            }
            assert(vs.take(items.len() as int) =~= vs);
        },
        Expr::Int { .. } => {
            assert(out@.map_values(|s: String| s@) =~= old(out)@.map_values(|s: String| s@) + Seq::<Seq<char>>::empty());
        },
    }
}

/// `(name, ptr)` of every `let`/`for` binder in `e`, in pre-order.
pub open spec fn binding_ptrs(e: ExprV) -> Seq<(Seq<char>, Seq<char>)>
    decreases e, 0nat,
{
    match e {
        ExprV::List(items, _) => if items.len() == 0 {
            Seq::empty()
        } else {
            match expr_ident(items[0]) {
                None => binding_ptrs_items(items),
                Some(head) => if head == "let"@ {
                    let named = if items.len() > 1 && expr_ident(items[1]) is Some {
                        seq![(expr_ident(items[1])->0, expr_ptr(items[1]))]
                    } else {
                        Seq::empty()
                    };
                    named + if items.len() > 2 { binding_ptrs(items[2]) } else { Seq::empty() }
                } else if head == "for"@ {
                    let named = if items.len() > 1 && expr_ident(items[1]) is Some {
                        seq![(expr_ident(items[1])->0, expr_ptr(items[1]))]
                    } else {
                        Seq::empty()
                    };
                    named + if items.len() > 2 { binding_ptrs_items(items.skip(2)) } else { Seq::empty() }
                } else {
                    binding_ptrs_items(items.skip(1))
                },
            }
        },
        _ => Seq::empty(),
    }
}

pub open spec fn binding_ptrs_items(s: Seq<ExprV>) -> Seq<(Seq<char>, Seq<char>)>
    decreases s, 1nat,
{
    if s.len() == 0 {
        Seq::empty()
    } else {
        binding_ptrs_items(s.drop_last()) + binding_ptrs(s.last())
    }
}

pub open spec fn pairs_view(s: Seq<(String, String)>) -> Seq<(Seq<char>, Seq<char>)> {
    s.map_values(|p: (String, String)| (p.0@, p.1@))
}

/// Walks `items[start..]` collecting binders.
fn collect_binding_ptrs_from(
    whole: &Expr,
    items: &Vec<Expr>,
    start: usize,
    out: &mut Vec<(String, String)>,
)
    requires
        whole@ matches ExprV::List(vs, _) && vs == view_exprs(items@),
        start <= items@.len(),
    ensures
        pairs_view(final(out)@) == pairs_view(old(out)@) + binding_ptrs_items(
            view_exprs(items@).skip(start as int),
        ),
    decreases whole@, 0nat,
{
    proof {
        lemma_view_exprs(items@);
    }
    let ghost vs = view_exprs(items@);
    let ghost o = pairs_view(out@);
    let mut i: usize = start;
    assert(vs.subrange(start as int, start as int) =~= Seq::<ExprV>::empty());
    assert(o + binding_ptrs_items(vs.subrange(start as int, start as int)) =~= o);
    while i < items.len()
        invariant
            whole@ matches ExprV::List(ws, _) && ws == vs,
            vs == view_exprs(items@),
            vs.len() == items@.len(),
            forall|j: int| 0 <= j < items@.len() ==> #[trigger] vs[j] == items@[j]@,
            start <= i <= items.len(),
            pairs_view(out@) == o + binding_ptrs_items(vs.subrange(start as int, i as int)),
        decreases items.len() - i,
    {
        proof {
            assert(vs[i as int] == items@[i as int]@);
            assert(whole@->List_0 == vs);
            assert(decreases_to!(whole@ => whole@->List_0));
            assert(decreases_to!(vs => vs[i as int]));
            assert(vs.subrange(start as int, i + 1).drop_last() =~= vs.subrange(start as int, i as int));
            assert(vs.subrange(start as int, i + 1).last() == vs[i as int]);
        }
        contract_collect_binding_ptrs(&items[i], out);
        proof {
            assert(pairs_view(out@) =~= o + binding_ptrs_items(vs.subrange(start as int, i + 1)));
        }
        i = i + 1;
    }
    assert(vs.subrange(start as int, items.len() as int) =~= vs.skip(start as int));
}

pub(crate) fn contract_collect_binding_ptrs(expr: &Expr, out: &mut Vec<(String, String)>)
    ensures
        pairs_view(final(out)@) == pairs_view(old(out)@) + binding_ptrs(expr@),
    decreases expr@, 1nat,
{
    let ghost o = pairs_view(out@);
    match expr {
        Expr::List { items, ptr } => {
            proof {
                lemma_view_exprs(items@);
            }
            let ghost vs = view_exprs(items@);
            if items.len() == 0 {
                assert(o + Seq::<(Seq<char>, Seq<char>)>::empty() =~= o);
                return;
            }
            let head = items[0].as_ident();
            match head {
                None => {
                    assert(vs.skip(0) =~= vs);
                    collect_binding_ptrs_from(expr, items, 0, out);
                },
                Some(h) => {
                    if str_eq(h, "let") || str_eq(h, "for") {
                        let is_let = str_eq(h, "let");
                        if items.len() > 1 {
                            match items[1].as_ident() {
                                Some(name) => {
                                    out.push((name.to_string(), items[1].ptr().to_string()));
                                },
                                None => {},
                            }
                        }
                        let ghost mid = pairs_view(out@);
                        proof {
                            let named = if items@.len() > 1 && expr_ident(vs[1]) is Some {
                                seq![(expr_ident(vs[1])->0, expr_ptr(vs[1]))]
                            } else {
                                Seq::empty()
                            };
                            if items@.len() > 1 {
                                assert(vs[1] == items@[1]@);
                            }
                            assert(mid =~= o + named);
                        }
                        if items.len() > 2 {
                            if is_let {
                                proof {
                                    assert(vs[2] == items@[2]@);
                                    assert(expr@->List_0 == vs);
                                    assert(decreases_to!(expr@ => expr@->List_0));
                                    assert(decreases_to!(vs => vs[2]));
                                }
                                contract_collect_binding_ptrs(&items[2], out);
                            } else {
                                collect_binding_ptrs_from(expr, items, 2, out);
                            }
                        } else {
                            assert(mid + Seq::<(Seq<char>, Seq<char>)>::empty() =~= mid);
                        }
                        assert(pairs_view(out@) =~= o + binding_ptrs(expr@));
                    } else {
                        collect_binding_ptrs_from(expr, items, 1, out);
                    }
                },
            }
        },
        _ => {
            assert(o + Seq::<(Seq<char>, Seq<char>)>::empty() =~= o);
        },
    }
}


} // verus!

verus! {

/// The x07AST pointer of a diagnostic (empty for other locations).
pub open spec fn diag_ptr(d: DiagV) -> Seq<char> {
    match d.loc {
        Some(LocV::X07Ast(p)) => p,
        _ => Seq::empty(),
    }
}

/// Report order: by pointer, then code, then message.
pub open spec fn dkey_le(a: DiagV, b: DiagV) -> bool {
    if diag_ptr(a) != diag_ptr(b) {
        chars_le(diag_ptr(a), diag_ptr(b))
    } else if a.code != b.code {
        chars_le(a.code, b.code)
    } else {
        chars_le(a.message, b.message)
    }
}

pub proof fn lemma_dkey_total(a: DiagV, b: DiagV)
    ensures
        dkey_le(a, b) || dkey_le(b, a),
{
    lemma_chars_le_total(diag_ptr(a), diag_ptr(b));
    lemma_chars_le_total(a.code, b.code);
    lemma_chars_le_total(a.message, b.message);
}

pub proof fn lemma_dkey_trans(a: DiagV, b: DiagV, c: DiagV)
    requires
        dkey_le(a, b),
        dkey_le(b, c),
    ensures
        dkey_le(a, c),
{
    if diag_ptr(a) != diag_ptr(b) || diag_ptr(b) != diag_ptr(c) {
        lemma_strict_chars_trans(diag_ptr(a), diag_ptr(b), diag_ptr(c));
    } else if a.code != b.code || b.code != c.code {
        lemma_strict_chars_trans(a.code, b.code, c.code);
    } else {
        lemma_chars_le_trans(a.message, b.message, c.message);
    }
}

/// A report lists its diagnostics by location first: of two diagnostics at
/// different pointers the one at the smaller pointer comes first, then by
/// code, then by message.
pub proof fn lemma_report_order_by_location(r: TypecheckReport, file: X07AstFile, p: int, q: int)
    requires
        report_ok(r, file),
        0 <= p < q < r.diagnostics@.len(),
    ensures
        ({
            let a = r.diagnostics@[p]@;
            let b = r.diagnostics@[q]@;
            &&& diag_ptr(a) != diag_ptr(b) ==> chars_le(diag_ptr(a), diag_ptr(b))
            &&& diag_ptr(a) == diag_ptr(b) && a.code != b.code ==> chars_le(a.code, b.code)
            &&& diag_ptr(a) == diag_ptr(b) && a.code == b.code ==> chars_le(a.message, b.message)
        }),
{
    assert(dkey_le(r.diagnostics@[p]@, r.diagnostics@[q]@));
}

/// `new` is `old` sorted by `dkey_le`, equal keys kept in their order;
/// `ids[p]` is the position in `old` of `new[p]`.
pub open spec fn is_stable_sort_of(old: Seq<DiagV>, new: Seq<DiagV>, ids: Seq<int>) -> bool {
    &&& ids.len() == old.len()
    &&& new.len() == old.len()
    &&& forall|p: int| 0 <= p < ids.len() ==> 0 <= #[trigger] ids[p] < old.len()
    &&& forall|p: int, q: int| 0 <= p < q < ids.len() ==> #[trigger] ids[p] != #[trigger] ids[q]
    &&& forall|j: int| 0 <= j < old.len() ==> #[trigger] crate::infer::covers_int(ids, j)
    &&& forall|p: int| 0 <= p < new.len() ==> #[trigger] new[p] == old[ids[p]]
    &&& forall|p: int, q: int| 0 <= p < q < new.len() ==> dkey_le(#[trigger] new[p], #[trigger] new[q])
    &&& forall|p: int, q: int|
        0 <= p < q < new.len() && dkey_le(new[q], new[p]) ==> #[trigger] ids[p] < #[trigger] ids[q]
}

fn diag_ptr_str(d: &Diagnostic) -> (r: &str)
    ensures
        r@ == diag_ptr(d@),
{
    match &d.loc {
        Some(Location::X07Ast { ptr }) => ptr.as_str(),
        _ => {
            proof {
                reveal_strlit("");
            }
            ""
        },
    }
}

fn diag_le(a: &Diagnostic, b: &Diagnostic) -> (r: bool)
    ensures
        r == dkey_le(a@, b@),
{
    let ap = chars_of(diag_ptr_str(a));
    let bp = chars_of(diag_ptr_str(b));
    if !chars_eq(&ap, &bp) {
        return chars_le_exec(&ap, &bp);
    }
    let ac = chars_of(a.code.as_str());
    let bc = chars_of(b.code.as_str());
    if !chars_eq(&ac, &bc) {
        return chars_le_exec(&ac, &bc);
    }
    let am = chars_of(a.message.as_str());
    let bm = chars_of(b.message.as_str());
    chars_le_exec(&am, &bm)
}

/// The state of the insertion sort after `i` steps: `v` holds the original
/// diagnostics at positions `ids`, the first `i` sorted and stable, the rest
/// untouched.
pub open spec fn sort_inv(v: Seq<Diagnostic>, s0: Seq<DiagV>, ids: Seq<int>, i: int, n: int) -> bool {
    &&& v.len() == n
    &&& s0.len() == n
    &&& ids.len() == n
    &&& 0 <= i <= n
    &&& forall|k: int| 0 <= k < n ==> (#[trigger] v[k])@ == s0[ids[k]]
    &&& forall|k: int| 0 <= k < n ==> 0 <= #[trigger] ids[k] < n
    &&& forall|k: int| i <= k < n ==> #[trigger] ids[k] == k
    &&& forall|k: int| 0 <= k < i ==> #[trigger] ids[k] < i
    &&& forall|j: int| 0 <= j < i ==> #[trigger] crate::infer::covers_int(ids.take(i), j)
    &&& forall|p: int, q: int| 0 <= p < q < n ==> #[trigger] ids[p] != #[trigger] ids[q]
    &&& forall|p: int, q: int| 0 <= p < q < i ==> dkey_le(#[trigger] v[p]@, #[trigger] v[q]@)
    &&& forall|p: int, q: int|
        0 <= p < q < i && dkey_le(v[q]@, v[p]@) ==> #[trigger] ids[p] < #[trigger] ids[q]
}

/// Inserting element `i` at `pos` (after every element at or before it)
/// extends the sorted prefix by one.
#[verifier::spinoff_prover]
#[verifier::rlimit(40)]
proof fn lemma_sort_step(v0: Seq<Diagnostic>, s0: Seq<DiagV>, ids0: Seq<int>, i: int, n: int, pos: int, x: Diagnostic)
    requires
        sort_inv(v0, s0, ids0, i, n),
        i < n,
        x == v0[i],
        0 <= pos <= i,
        forall|k: int| pos <= k < i ==> !dkey_le(#[trigger] v0[k]@, x@),
        pos > 0 ==> dkey_le(v0[pos - 1]@, x@),
    ensures
        sort_inv(v0.remove(i).insert(pos, x), s0, ids0.remove(i).insert(pos, i), i + 1, n),
{
    let nids = ids0.remove(i).insert(pos, i);
    let nv = v0.remove(i).insert(pos, x);
    assert forall|k: int| 0 <= k < n implies (#[trigger] nv[k])@ == s0[nids[k]] by {
        if k < pos {
            assert(nv[k] == v0[k] && nids[k] == ids0[k]);
        } else if k == pos {
        } else if k <= i {
            assert(nv[k] == v0[k - 1] && nids[k] == ids0[k - 1]);
        } else {
            assert(nv[k] == v0[k] && nids[k] == ids0[k]);
        }
    }
    assert forall|k: int| 0 <= k < n implies 0 <= #[trigger] nids[k] < n by {
        if k < pos {
            assert(nids[k] == ids0[k]);
        } else if k == pos {
        } else if k <= i {
            assert(nids[k] == ids0[k - 1]);
        } else {
            assert(nids[k] == ids0[k]);
        }
    }
    assert forall|j: int| 0 <= j < i + 1 implies #[trigger] crate::infer::covers_int(nids.take(i + 1), j) by {
        let t = nids.take(i + 1);
        if j == i {
            assert(t[pos] == j);
        } else {
            assert(crate::infer::covers_int(ids0.take(i), j));
            let p0 = choose|p: int| 0 <= p < ids0.take(i).len() && #[trigger] ids0.take(i)[p] == j;
            if p0 < pos {
                assert(t[p0] == j);
            } else {
                assert(t[p0 + 1] == j);
            }
        }
    }
    assert forall|k: int| i + 1 <= k < n implies #[trigger] nids[k] == k by {
        assert(nids[k] == ids0[k]);
    }
    assert forall|k: int| 0 <= k < i + 1 implies #[trigger] nids[k] < i + 1 by {
        if k < pos {
            assert(nids[k] == ids0[k]);
        } else if k > pos {
            assert(nids[k] == ids0[k - 1]);
        }
    }
    assert forall|p: int, q: int| 0 <= p < q < n implies #[trigger] nids[p] != #[trigger] nids[q] by {
        let op = if p < pos { p } else if p == pos { -1 } else if p <= i { p - 1 } else { p };
        let oq = if q < pos { q } else if q == pos { -1 } else if q <= i { q - 1 } else { q };
        if p == pos {
            assert(nids[q] == ids0[oq]);
            if oq < i {
                assert(ids0[oq] < i);
            } else {
                assert(ids0[oq] == oq);
            }
        } else if q == pos {
            assert(nids[p] == ids0[op]);
            assert(ids0[op] < i);
        } else {
            assert(nids[p] == ids0[op] && nids[q] == ids0[oq]);
            assert(op != oq);
            if op < oq {
                assert(ids0[op] != ids0[oq]);
            } else {
                assert(ids0[oq] != ids0[op]);
            }
        }
    }
    assert forall|p: int, q: int| 0 <= p < q < i + 1 implies dkey_le(#[trigger] nv[p]@, #[trigger] nv[q]@) by {
        if p < pos && q < pos {
            assert(nv[p] == v0[p] && nv[q] == v0[q]);
        } else if p < pos && q == pos {
            assert(nv[p] == v0[p]);
            if p < pos - 1 {
                lemma_dkey_trans(v0[p]@, v0[pos - 1]@, x@);
            }
        } else if p < pos && q > pos {
            assert(nv[p] == v0[p] && nv[q] == v0[q - 1]);
        } else if p == pos {
            assert(nv[q] == v0[q - 1]);
            lemma_dkey_total(v0[q - 1]@, x@);
        } else {
            assert(nv[p] == v0[p - 1] && nv[q] == v0[q - 1]);
        }
    }
    assert forall|p: int, q: int| 0 <= p < q < i + 1 && dkey_le(nv[q]@, nv[p]@) implies #[trigger] nids[p] < #[trigger] nids[q] by {
        if p < pos && q < pos {
            assert(nv[p] == v0[p] && nv[q] == v0[q]);
            assert(nids[p] == ids0[p] && nids[q] == ids0[q]);
        } else if p < pos && q == pos {
            assert(nids[p] == ids0[p]);
        } else if p < pos && q > pos {
            assert(nv[p] == v0[p] && nv[q] == v0[q - 1]);
            assert(nids[p] == ids0[p] && nids[q] == ids0[q - 1]);
        } else if p == pos {
            assert(nv[q] == v0[q - 1]);
        } else {
            assert(nv[p] == v0[p - 1] && nv[q] == v0[q - 1]);
            assert(nids[p] == ids0[p - 1] && nids[q] == ids0[q - 1]);
        }
    }
}

/// Sorts diagnostics by pointer, code and message, keeping the order of
/// equal ones.
pub fn typecheck_sort_diagnostics_in_place(diagnostics: &mut Vec<Diagnostic>)
    ensures
        exists|ids: Seq<int>| is_stable_sort_of(diags_view(old(diagnostics)@), diags_view(final(diagnostics)@), ids),
{
    let ghost s0 = diags_view(diagnostics@);
    let ghost n = diagnostics@.len() as int;
    let ghost mut ids: Seq<int> = Seq::new(n as nat, |k: int| k);
    let mut i: usize = 0;
    proof {
        assert forall|k: int| 0 <= k < n implies (#[trigger] diagnostics@[k])@ == s0[ids[k]] by {}
    }
    while i < diagnostics.len()
        invariant
            sort_inv(diagnostics@, s0, ids, i as int, n),
        decreases n - i,
    {
        let ghost v0 = diagnostics@;
        let x = diagnostics.remove(i);
        let mut pos: usize = i;
        while pos > 0 && !diag_le(&diagnostics[pos - 1], &x)
            invariant
                diagnostics@ == v0.remove(i as int),
                i < v0.len(),
                pos <= i,
                forall|k: int| pos <= k < i ==> !dkey_le(#[trigger] v0[k]@, x@),
            decreases pos,
        {
            pos = pos - 1;
        }
        proof {
            if pos > 0 {
                assert(v0.remove(i as int)[pos - 1] == v0[pos - 1]);
                assert(dkey_le(v0[pos - 1]@, x@));
            }
            lemma_sort_step(v0, s0, ids, i as int, n, pos as int, x);
        }
        diagnostics.insert(pos, x);
        proof {
            ids = ids.remove(i as int).insert(pos as int, i as int);
        }
        i = i + 1;
    }
    proof {
        let fv = diags_view(diagnostics@);
        assert forall|p: int| 0 <= p < fv.len() implies #[trigger] fv[p] == s0[ids[p]] by {
            assert(diagnostics@[p]@ == s0[ids[p]]);
        }
        assert forall|p: int, q: int| 0 <= p < q < fv.len() implies dkey_le(#[trigger] fv[p], #[trigger] fv[q]) by {
            assert(dkey_le(diagnostics@[p]@, diagnostics@[q]@));
        }
        assert forall|p: int, q: int| 0 <= p < q < fv.len() && dkey_le(fv[q], fv[p]) implies #[trigger] ids[p] < #[trigger] ids[q] by {
            assert(dkey_le(diagnostics@[q]@, diagnostics@[p]@));
        }
        assert forall|j: int| 0 <= j < s0.len() implies #[trigger] crate::infer::covers_int(ids, j) by {
            assert(ids.take(n as int) =~= ids);
            assert(crate::infer::covers_int(ids.take(n as int), j));
        }
        assert(is_stable_sort_of(s0, fv, ids));
    }
}

} // verus!

verus! {

/// `(ptr, value)` for `e` and every expression inside it, in pre-order.
pub open spec fn expr_values_of(e: ExprV) -> Seq<(Seq<char>, DV)>
    decreases e, 0nat,
{
    seq![(expr_ptr(e), expr_value(e))] + match e {
        ExprV::List(items, _) => expr_values_items(items),
        _ => Seq::empty(),
    }
}

pub open spec fn expr_values_items(s: Seq<ExprV>) -> Seq<(Seq<char>, DV)>
    decreases s, 1nat,
{
    if s.len() == 0 {
        Seq::empty()
    } else {
        expr_values_items(s.drop_last()) + expr_values_of(s.last())
    }
}

/// The values of contract clauses: each clause's expression, then its
/// witnesses.
pub open spec fn clauses_values(cs: Seq<ContractClauseAst>) -> Seq<(Seq<char>, DV)>
    decreases cs.len(),
{
    if cs.len() == 0 {
        Seq::empty()
    } else {
        clauses_values(cs.drop_last()) + expr_values_of(cs.last().expr@) + expr_values_items(
            view_exprs(cs.last().witness@),
        )
    }
}

/// The values of a declaration: its clauses, then its body.
pub open spec fn decl_values(f: FunctionDecl) -> Seq<(Seq<char>, DV)> {
    clauses_values(f.requires@) + clauses_values(f.ensures@) + clauses_values(f.invariant@)
        + expr_values_of(f.body@)
}

pub open spec fn decls_values(fs: Seq<FunctionDecl>) -> Seq<(Seq<char>, DV)>
    decreases fs.len(),
{
    if fs.len() == 0 {
        Seq::empty()
    } else {
        decls_values(fs.drop_last()) + decl_values(fs.last())
    }
}

/// Every expression of a file by pointer: the solve expression, then each
/// `defn` and each `defasync`.
pub open spec fn file_values(file: X07AstFile) -> Seq<(Seq<char>, DV)> {
    let solve_values = match file.solve {
        Some(e) => expr_values_of(e@),
        None => Seq::empty(),
    };
    solve_values + decls_values(file.functions@) + decls_values(file.async_functions@)
}

/// The value last recorded for `k`.
pub open spec fn value_lookup(s: Seq<(Seq<char>, DV)>, k: Seq<char>) -> Option<DV>
    decreases s.len(),
{
    if s.len() == 0 {
        None
    } else if s.last().0 == k {
        Some(s.last().1)
    } else {
        value_lookup(s.drop_last(), k)
    }
}

fn collect_items_values(whole: &Expr, items: &Vec<Expr>, out: &mut Vec<(String, DiagValue)>)
    requires
        whole@ matches ExprV::List(vs, _) && vs == view_exprs(items@),
    ensures
        data_view(final(out)@) == data_view(old(out)@) + expr_values_items(view_exprs(items@)),
    decreases whole@, 0nat,
{
    proof {
        lemma_view_exprs(items@);
    }
    let ghost vs = view_exprs(items@);
    let ghost o = data_view(out@);
    let mut i: usize = 0;
    assert(o + expr_values_items(vs.take(0)) =~= o);
    while i < items.len()
        invariant
            whole@ matches ExprV::List(ws, _) && ws == vs,
            vs == view_exprs(items@),
            vs.len() == items@.len(),
            forall|j: int| 0 <= j < items@.len() ==> #[trigger] vs[j] == items@[j]@,
            i <= items.len(),
            data_view(out@) == o + expr_values_items(vs.take(i as int)),
        decreases items.len() - i,
    {
        proof {
            lemma_child(whole@, items@, i as int);
            assert(vs.take(i + 1).drop_last() =~= vs.take(i as int));
            assert(vs.take(i + 1).last() == vs[i as int]);
        }
        collect_expr_values(&items[i], out);
        proof {
            assert(data_view(out@) =~= o + expr_values_items(vs.take(i + 1)));
        }
        i = i + 1;
    }
    assert(vs.take(items.len() as int) =~= vs);
}

/// Appends `(ptr, value)` for `expr` and every expression inside it.
pub fn collect_expr_values(expr: &Expr, out: &mut Vec<(String, DiagValue)>)
    ensures
        data_view(final(out)@) == data_view(old(out)@) + expr_values_of(expr@),
    decreases expr@, 1nat,
{
    let ghost o = data_view(out@);
    out.push((expr.ptr().to_string(), expr_to_value(expr)));
    let ghost mid = data_view(out@);
    assert(mid =~= o + seq![(expr_ptr(expr@), expr_value(expr@))]);
    match expr {
        Expr::List { items, .. } => {
            collect_items_values(expr, items, out);
        },
        _ => {},
    }
    assert(data_view(out@) =~= o + expr_values_of(expr@));
}

fn collect_contract_clause_expr_values(clauses: &Vec<ContractClauseAst>, out: &mut Vec<(String, DiagValue)>)
    ensures
        data_view(final(out)@) == data_view(old(out)@) + clauses_values(clauses@),
{
    let ghost o = data_view(out@);
    let mut i: usize = 0;
    assert(o + clauses_values(clauses@.take(0)) =~= o);
    while i < clauses.len()
        invariant
            i <= clauses.len(),
            data_view(out@) == o + clauses_values(clauses@.take(i as int)),
        decreases clauses.len() - i,
    {
        let c = &clauses[i];
        let ghost before = data_view(out@);
        collect_expr_values(&c.expr, out);
        let ghost mid = data_view(out@);
        proof {
            lemma_view_exprs(c.witness@);
        }
        let mut k: usize = 0;
        let ghost ws = view_exprs(c.witness@);
        assert(mid + expr_values_items(ws.take(0)) =~= mid);
        while k < c.witness.len()
            invariant
                k <= c.witness.len(),
                ws == view_exprs(c.witness@),
                ws.len() == c.witness@.len(),
                forall|j: int| 0 <= j < c.witness@.len() ==> #[trigger] ws[j] == c.witness@[j]@,
                data_view(out@) == mid + expr_values_items(ws.take(k as int)),
            decreases c.witness.len() - k,
        {
            collect_expr_values(&c.witness[k], out);
            proof {
                assert(ws.take(k + 1).drop_last() =~= ws.take(k as int));
                assert(ws.take(k + 1).last() == ws[k as int]);
                assert(data_view(out@) =~= mid + expr_values_items(ws.take(k + 1)));
            }
            k = k + 1;
        }
        proof {
            assert(ws.take(c.witness.len() as int) =~= ws);
            assert(clauses@.take(i + 1).drop_last() =~= clauses@.take(i as int));
            assert(clauses@.take(i + 1).last() == clauses@[i as int]);
            assert(data_view(out@) =~= o + clauses_values(clauses@.take(i + 1)));
        }
        i = i + 1;
    }
    assert(clauses@.take(clauses.len() as int) =~= clauses@);
}

fn collect_decls_values(fs: &Vec<FunctionDecl>, out: &mut Vec<(String, DiagValue)>)
    ensures
        data_view(final(out)@) == data_view(old(out)@) + decls_values(fs@),
{
    let ghost o = data_view(out@);
    let mut i: usize = 0;
    assert(o + decls_values(fs@.take(0)) =~= o);
    while i < fs.len()
        invariant
            i <= fs.len(),
            data_view(out@) == o + decls_values(fs@.take(i as int)),
        decreases fs.len() - i,
    {
        let f = &fs[i];
        let ghost before = data_view(out@);
        collect_contract_clause_expr_values(&f.requires, out);
        collect_contract_clause_expr_values(&f.ensures, out);
        collect_contract_clause_expr_values(&f.invariant, out);
        collect_expr_values(&f.body, out);
        proof {
            assert(fs@.take(i + 1).drop_last() =~= fs@.take(i as int));
            assert(fs@.take(i + 1).last() == fs@[i as int]);
            assert(data_view(out@) =~= o + decls_values(fs@.take(i + 1)));
        }
        i = i + 1;
    }
    assert(fs@.take(fs.len() as int) =~= fs@);
}

/// Every expression of `file` with its value, by pointer.
pub fn file_expr_values(file: &X07AstFile) -> (r: Vec<(String, DiagValue)>)
    ensures
        data_view(r@) == file_values(*file),
{
    let mut out: Vec<(String, DiagValue)> = Vec::new();
    match &file.solve {
        Some(solve) => {
            collect_expr_values(solve, &mut out);
        },
        None => {},
    }
    collect_decls_values(&file.functions, &mut out);
    collect_decls_values(&file.async_functions, &mut out);
    assert(data_view(out@) =~= file_values(*file));
    out
}

/// The value last recorded for `key`.
pub fn values_get<'a>(vals: &'a Vec<(String, DiagValue)>, key: &str) -> (r: Option<&'a DiagValue>)
    ensures
        match r {
            Some(v) => value_lookup(data_view(vals@), key@) == Some(v@),
            None => value_lookup(data_view(vals@), key@) is None,
        },
{
    let ghost d = data_view(vals@);
    let mut i: usize = vals.len();
    assert(d.take(i as int) =~= d);
    while i > 0
        invariant
            i <= vals.len(),
            d == data_view(vals@),
            value_lookup(d, key@) == value_lookup(d.take(i as int), key@),
        decreases i,
    {
        let ghost t = d.take(i as int);
        assert(t.last() == (vals@[i - 1].0@, vals@[i - 1].1@));
        assert(t.drop_last() =~= d.take(i - 1));
        if str_eq(vals[i - 1].0.as_str(), key) {
            return Some(&vals[i - 1].1);
        }
        i = i - 1;
    }
    None
}

} // verus!

verus! {

/// Every diagnostic is an error of the type stage.
pub open spec fn all_type_errors(s: Seq<Diagnostic>) -> bool {
    forall|i: int| 0 <= i < s.len() ==> (#[trigger] s[i])@.severity == Severity::Error && s[i]@.stage
        == Stage::Type
}

pub proof fn lemma_unify_diag_is_type_error(c: ConstraintV, l: TyT, r: TyT, why: Seq<char>)
    ensures
        unify_diag_v(c, l, r, why).severity == Severity::Error,
        unify_diag_v(c, l, r, why).stage == Stage::Type,
{
}

pub proof fn lemma_drain_diags_are_type_errors(m: Map<u32, TyT>, ps: Seq<PendingImplicitTapp>)
    ensures
        forall|i: int| 0 <= i < drain_diags(m, ps).len() ==> (#[trigger] drain_diags(m, ps)[i]).severity
            == Severity::Error && drain_diags(m, ps)[i].stage == Stage::Type,
    decreases ps.len(),
{
    if ps.len() > 0 {
        lemma_drain_diags_are_type_errors(m, ps.drop_last());
    }
}

proof fn lemma_append_type_errors(a: Seq<Diagnostic>, b: Seq<Diagnostic>)
    requires
        all_type_errors(a),
        all_type_errors(b),
    ensures
        all_type_errors(a + b),
{
    assert forall|i: int| 0 <= i < (a + b).len() implies (#[trigger] (a + b)[i])@.severity
        == Severity::Error && (a + b)[i]@.stage == Stage::Type by {
        if i < a.len() {
            assert((a + b)[i] == a[i]);
        } else {
            assert((a + b)[i] == b[i - a.len()]);
        }
    }
}

/// Reports the impure constructs of a clause (its expression and witnesses).
fn clause_impurity_diags(infer: &mut InferState, c: &ContractClauseAst)
    requires
        old(infer).wf(),
    ensures
        InferState::extends(*old(infer), *final(infer)),
{
    let mut impure: Vec<(String, String)> = Vec::new();
    contract_collect_impurity(&c.expr, &mut impure);
    let mut k: usize = 0;
    while k < c.witness.len()
        invariant
            k <= c.witness.len(),
        decreases c.witness.len() - k,
    {
        contract_collect_impurity(&c.witness[k], &mut impure);
        k = k + 1;
    }
    let ghost s0 = *infer;
    proof {
        lemma_ext_refl(s0);
    }
    let mut j: usize = 0;
    while j < impure.len()
        invariant
            j <= impure.len(),
            infer.wf(),
            InferState::extends(s0, *infer),
        decreases impure.len() - j,
    {
        let d = diag_contract_err("X07-CONTRACT-0002", impure[j].0.clone(), impure[j].1.clone());
        let ghost s1 = *infer;
        infer.push_diag(d);
        proof {
            lemma_ext_trans(s0, s1, *infer);
        }
        j = j + 1;
    }
}

/// Reports each use of `__result` in a clause that is not an `ensures`.
fn clause_result_diags(infer: &mut InferState, c: &ContractClauseAst)
    requires
        old(infer).wf(),
    ensures
        InferState::extends(*old(infer), *final(infer)),
{
    let mut ptrs: Vec<String> = Vec::new();
    contract_collect_ident_ptrs(&c.expr, "__result", &mut ptrs);
    let mut k: usize = 0;
    while k < c.witness.len()
        invariant
            k <= c.witness.len(),
        decreases c.witness.len() - k,
    {
        contract_collect_ident_ptrs(&c.witness[k], "__result", &mut ptrs);
        k = k + 1;
    }
    let ghost s0 = *infer;
    proof {
        lemma_ext_refl(s0);
    }
    let mut j: usize = 0;
    while j < ptrs.len()
        invariant
            j <= ptrs.len(),
            infer.wf(),
            InferState::extends(s0, *infer),
        decreases ptrs.len() - j,
    {
        let d = diag_contract_err(
            "X07-CONTRACT-0003",
            ptrs[j].clone(),
            "\"__result\" is only available in ensures clauses".to_string(),
        );
        let ghost s1 = *infer;
        infer.push_diag(d);
        proof {
            lemma_ext_trans(s0, s1, *infer);
        }
        j = j + 1;
    }
}

/// Checks the clauses of one kind: purity, `__result` (unless `ensures`),
/// that each clause is an `i32`, and records each witness's type.
fn check_clauses(
    infer: &mut InferState,
    sigs: &TypecheckSigs,
    clauses: &Vec<ContractClauseAst>,
    forbid_result: bool,
    witness_types: &mut Vec<(String, TyTerm)>,
)
    requires
        old(infer).wf(),
        sigs.wf(),
    ensures
        InferState::extends(*old(infer), *final(infer)),
{
    let ghost s0 = *infer;
    proof {
        lemma_ext_refl(s0);
    }
    let want_bool = TyTerm::Named("i32".to_string());
    let mut i: usize = 0;
    while i < clauses.len()
        invariant
            i <= clauses.len(),
            sigs.wf(),
            infer.wf(),
            InferState::extends(s0, *infer),
        decreases clauses.len() - i,
    {
        let c = &clauses[i];
        let ghost s1 = *infer;
        clause_impurity_diags(infer, c);
        let ghost s2 = *infer;
        if forbid_result {
            clause_result_diags(infer, c);
        } else {
            proof {
                lemma_ext_refl(s2);
            }
        }
        let ghost s3 = *infer;
        infer.check_contract_expr(sigs, &c.expr, &want_bool);
        proof {
            lemma_ext_trans(s1, s2, s3);
            lemma_ext_trans(s1, s3, *infer);
            lemma_ext_trans(s0, s1, *infer);
        }
        let mut k: usize = 0;
        while k < c.witness.len()
            invariant
                k <= c.witness.len(),
                sigs.wf(),
                infer.wf(),
                InferState::extends(s0, *infer),
            decreases c.witness.len() - k,
        {
            let w = &c.witness[k];
            let ghost s4 = *infer;
            let ty = infer.infer_expr(sigs, w, None).ty;
            proof {
                lemma_ext_trans(s0, s4, *infer);
            }
            witness_types.push((w.ptr().to_string(), ty));
            k = k + 1;
        }
        i = i + 1;
    }
}

/// `"/decls/<d>/params/<p>/name"`.
fn param_name_ptr(decl_idx: usize, pidx: usize) -> (r: String)
    ensures
        r@ == "/decls/"@ + dec(decl_idx as nat) + "/params/"@ + dec(pidx as nat) + "/name"@,
{
    let a = concat_str("/decls/", u64_to_dec(decl_idx as u64).as_str());
    let b = concat_str(a.as_str(), "/params/");
    let c = concat_str(b.as_str(), u64_to_dec(pidx as u64).as_str());
    concat_str(c.as_str(), "/name")
}

/// Binds each parameter of `f` in the current scope.
fn bind_params(infer: &mut InferState, f: &FunctionDecl)
    requires
        old(infer).wf(),
    ensures
        InferState::extends(*old(infer), *final(infer)),
{
    let ghost s0 = *infer;
    proof {
        lemma_ext_refl(s0);
    }
    let mut i: usize = 0;
    while i < f.params.len()
        invariant
            i <= f.params.len(),
            infer.wf(),
            InferState::extends(s0, *infer),
        decreases f.params.len() - i,
    {
        let p = &f.params[i];
        let info = TyInfoTerm {
            ty: type_ref_to_term(&p.ty),
            brand: clone_opt_string(&p.brand),
            view_full: false,
        };
        let ghost s1 = *infer;
        infer.bind(p.name.clone(), info);
        proof {
            lemma_ext_trans(s0, s1, *infer);
        }
        i = i + 1;
    }
}

/// The contract rules of `f` that need no inference: `__result` may not be
/// a parameter or a binder.
fn reserved_name_diags(infer: &mut InferState, f: &FunctionDecl, decl_idx: usize)
    requires
        old(infer).wf(),
    ensures
        InferState::extends(*old(infer), *final(infer)),
{
    let ghost s0 = *infer;
    proof {
        lemma_ext_refl(s0);
    }
    let msg = "reserved name is not allowed here: \"__result\"";
    let mut pidx: usize = 0;
    while pidx < f.params.len()
        invariant
            pidx <= f.params.len(),
            infer.wf(),
            InferState::extends(s0, *infer),
        decreases f.params.len() - pidx,
    {
        if str_eq(f.params[pidx].name.as_str(), "__result") {
            let d = diag_contract_err("X07-CONTRACT-0004", param_name_ptr(decl_idx, pidx), msg.to_string());
            let ghost s1 = *infer;
            infer.push_diag(d);
            proof {
                lemma_ext_trans(s0, s1, *infer);
            }
        }
        pidx = pidx + 1;
    }
    let mut bindings: Vec<(String, String)> = Vec::new();
    contract_collect_binding_ptrs(&f.body, &mut bindings);
    collect_clause_bindings(&f.requires, &mut bindings);
    collect_clause_bindings(&f.ensures, &mut bindings);
    collect_clause_bindings(&f.invariant, &mut bindings);
    let mut j: usize = 0;
    while j < bindings.len()
        invariant
            j <= bindings.len(),
            infer.wf(),
            InferState::extends(s0, *infer),
        decreases bindings.len() - j,
    {
        if str_eq(bindings[j].0.as_str(), "__result") {
            let d = diag_contract_err("X07-CONTRACT-0004", bindings[j].1.clone(), msg.to_string());
            let ghost s1 = *infer;
            infer.push_diag(d);
            proof {
                lemma_ext_trans(s0, s1, *infer);
            }
        }
        j = j + 1;
    }
}

/// The `let`/`for` bindings of the expressions `ws`, in order.
pub open spec fn exprs_binding_ptrs(ws: Seq<Expr>) -> Seq<(Seq<char>, Seq<char>)>
    decreases ws.len(),
{
    if ws.len() == 0 {
        Seq::empty()
    } else {
        exprs_binding_ptrs(ws.drop_last()) + binding_ptrs(ws.last()@)
    }
}

/// The bindings of each clause: its expression's, then its witnesses'.
pub open spec fn clauses_binding_ptrs(cs: Seq<ContractClauseAst>) -> Seq<(Seq<char>, Seq<char>)>
    decreases cs.len(),
{
    if cs.len() == 0 {
        Seq::empty()
    } else {
        clauses_binding_ptrs(cs.drop_last()) + binding_ptrs(cs.last().expr@) + exprs_binding_ptrs(
            cs.last().witness@,
        )
    }
}

fn collect_clause_bindings(clauses: &Vec<ContractClauseAst>, out: &mut Vec<(String, String)>)
    ensures
        pairs_view(final(out)@) == pairs_view(old(out)@) + clauses_binding_ptrs(clauses@),
{
    let ghost o = pairs_view(out@);
    let mut i: usize = 0;
    assert(clauses@.take(0) =~= Seq::<ContractClauseAst>::empty());
    assert(o + Seq::<(Seq<char>, Seq<char>)>::empty() =~= o);
    while i < clauses.len()
        invariant
            i <= clauses.len(),
            pairs_view(out@) == o + clauses_binding_ptrs(clauses@.take(i as int)),
        decreases clauses.len() - i,
    {
        let ghost before = pairs_view(out@);
        contract_collect_binding_ptrs(&clauses[i].expr, out);
        let ghost mid = pairs_view(out@);
        let mut k: usize = 0;
        let ghost ws = clauses@[i as int].witness@;
        assert(ws.take(0) =~= Seq::<Expr>::empty());
        assert(mid + Seq::<(Seq<char>, Seq<char>)>::empty() =~= mid);
        while k < clauses[i].witness.len()
            invariant
                k <= clauses@[i as int].witness.len(),
                i < clauses.len(),
                ws == clauses@[i as int].witness@,
                pairs_view(out@) == mid + exprs_binding_ptrs(ws.take(k as int)),
            decreases clauses@[i as int].witness.len() - k,
        {
            let ghost b2 = pairs_view(out@);
            contract_collect_binding_ptrs(&clauses[i].witness[k], out);
            k = k + 1;
            assert(ws.take(k as int).drop_last() =~= ws.take(k - 1));
            assert(pairs_view(out@) =~= mid + exprs_binding_ptrs(ws.take(k as int)));
        }
        assert(ws.take(k as int) =~= ws);
        i = i + 1;
        assert(clauses@.take(i as int).drop_last() =~= clauses@.take(i - 1));
        assert(pairs_view(out@) =~= o + clauses_binding_ptrs(clauses@.take(i as int)));
    }
    assert(clauses@.take(i as int) =~= clauses@);
}

/// After solving: reports each witness whose resolved type is not allowed.
fn witness_type_diags(infer: &mut InferState, witness_types: &Vec<(String, TyTerm)>)
    requires
        old(infer).wf(),
    ensures
        InferState::extends(*old(infer), *final(infer)),
        final(infer).pending_tapp == old(infer).pending_tapp,
        final(infer).constraints == old(infer).constraints,
        witness_types@.len() == 0 ==> *final(infer) == *old(infer),
{
    let ghost s0 = *infer;
    proof {
        lemma_ext_refl(s0);
    }
    let mut i: usize = 0;
    while i < witness_types.len()
        invariant
            i <= witness_types.len(),
            infer.wf(),
            InferState::extends(s0, *infer),
            infer.pending_tapp == s0.pending_tapp,
            infer.constraints == s0.constraints,
            witness_types@.len() == 0 ==> *infer == s0,
        decreases witness_types.len() - i,
    {
        let resolved = infer.subst.resolve(&witness_types[i].1);
        if !contract_witness_ty_allowed(&resolved) {
            let m1 = concat_str(
                "contract witness has unsupported type: ",
                contract_ty_brief(&resolved).as_str(),
            );
            let msg = concat_str(m1.as_str(), " (allowed: i32, bytes, bytes_view, result_*)");
            let d = diag_contract_err("X07-CONTRACT-0005", witness_types[i].0.clone(), msg);
            let ghost s1 = *infer;
            infer.push_diag(d);
            proof {
                lemma_ext_trans(s0, s1, *infer);
            }
        }
        i = i + 1;
    }
}

/// Solves, resolves the pending type applications into `diagnostics` and
/// `rewrites`, then moves the state's own diagnostics after them.
fn finish_infer(
    infer: &mut InferState,
    diagnostics: &mut Vec<Diagnostic>,
    rewrites: &mut Vec<TappRewrite>,
    witness_types: &Vec<(String, TyTerm)>,
)
    requires
        old(infer).wf(),
        all_type_errors(old(infer).diagnostics@),
        all_type_errors(old(diagnostics)@),
        rewrites_sorted(old(rewrites)@),
    ensures
        all_type_errors(final(diagnostics)@),
        rewrites_sorted(final(rewrites)@),
        final(infer).pending_tapp@.len() == 0,
        final(infer).diagnostics@.len() == 0,
        crate::infer::sorted_for_solving(old(infer).constraints@, final(infer).constraints@),
        old(infer).subst@.submap_of(final(infer).subst@),
        rewrites_table(final(rewrites)@) == drain_table(
            final(infer).subst@,
            old(infer).pending_tapp@,
            rewrites_table(old(rewrites)@),
        ),
        ({
            let dd = drain_diags(final(infer).subst@, old(infer).pending_tapp@);
            let k = (old(diagnostics)@.len() + dd.len()) as int;
            &&& final(diagnostics)@.len() >= k + old(infer).diagnostics@.len()
            &&& diags_view(final(diagnostics)@).subrange(0, k) == diags_view(old(diagnostics)@) + dd
            &&& diags_view(final(diagnostics)@).subrange(k, k + old(infer).diagnostics@.len())
                == diags_view(old(infer).diagnostics@)
        }),
        old(infer).pending_tapp@.len() == 0 && witness_types@.len() == 0 && (forall|i: int|
            0 <= i < old(infer).constraints@.len() ==> (#[trigger] old(infer).constraints@[i]).lhs@
                == old(infer).constraints@[i].rhs@) ==> final(diagnostics)@ == old(diagnostics)@ + old(
            infer,
        ).diagnostics@ && *final(rewrites) == *old(rewrites),
{
    let ghost s0 = *infer;
    infer.solve_constraints();
    proof {
        let d = infer.diagnostics@;
        if d.len() > s0.diagnostics@.len() {
            assert forall|i: int| 0 <= i < d.len() implies (#[trigger] d[i])@.severity == Severity::Error
                && d[i]@.stage == Stage::Type by {
                if i < s0.diagnostics@.len() {
                    assert(d[i] == d.drop_last()[i]);
                } else {
                    let cs = s0.constraints@;
                    let m = infer.subst@;
                    let (ci, e) = choose|ci: int, e: UnifyError|
                        0 <= ci < cs.len() && #[trigger] unify_error_ok(m, e)
                            && d.last()@ == unify_diag_v(#[trigger] cs[ci]@, e.lhs@, e.rhs@, e.reason@);
                    lemma_unify_diag_is_type_error(cs[ci]@, e.lhs@, e.rhs@, e.reason@);
                }
            }
        }
    }
    let ghost s1 = *infer;
    witness_type_diags(infer, witness_types);
    let mut pending: Vec<PendingImplicitTapp> = Vec::new();
    std::mem::swap(&mut pending, &mut infer.pending_tapp);
    let ghost d_before = diagnostics@;
    let ghost pv = pending@;
    let ghost m = infer.subst@;
    drain_pending_tapp(pending, &infer.subst, diagnostics, rewrites);
    proof {
        let dd = drain_diags(m, pv);
        lemma_drain_diags_are_type_errors(m, pv);
        let d = diagnostics@;
        assert(diags_view(d) == diags_view(d_before) + dd);
        assert(diags_view(d).len() == d.len());
        assert(diags_view(d_before).len() == d_before.len());
        assert forall|i: int| 0 <= i < d.len() implies (#[trigger] d[i])@.severity == Severity::Error
            && d[i]@.stage == Stage::Type by {
            assert(diags_view(d)[i] == d[i]@);
            if i < d_before.len() {
                assert(diags_view(d_before)[i] == d_before[i]@);
                assert((diags_view(d_before) + dd)[i] == diags_view(d_before)[i]);
            } else {
                assert((diags_view(d_before) + dd)[i] == dd[i - d_before.len()]);
            }
        }
        let di = infer.diagnostics@;
        assert forall|i: int| 0 <= i < di.len() implies (#[trigger] di[i])@.severity == Severity::Error
            && di[i]@.stage == Stage::Type by {
            if i < s1.diagnostics@.len() {
                assert(di[i] == s1.diagnostics@[i]);
            }
        }
    }
    let ghost da = diagnostics@;
    let ghost db = infer.diagnostics@;
    diagnostics.append(&mut infer.diagnostics);
    proof {
        lemma_append_type_errors(da, db);
        let n0 = s0.diagnostics@.len();
        assert(s0.diagnostics@ =~= db.take(n0 as int)) by {
            if s1.diagnostics@ != s0.diagnostics@ {
                assert(s1.diagnostics@.drop_last() == s0.diagnostics@);
                assert(s1.diagnostics@ =~= db.take(s1.diagnostics@.len() as int));
            }
        }
        let dd = drain_diags(m, pv);
        let fin = diagnostics@;
        assert(fin =~= da + db);
        assert(diags_view(fin) =~= diags_view(da) + diags_view(db));
        assert(diags_view(da).len() == da.len());
        assert(diags_view(fin).subrange(0, da.len() as int) =~= diags_view(da));
        assert(diags_view(fin).subrange(da.len() as int, (da.len() + n0) as int) =~= diags_view(s0.diagnostics@));
    }
}

/// Typechecks one `defn`/`defasync` declared at `/decls/<decl_idx>`.
fn typecheck_decl(
    module_id: &str,
    f: &FunctionDecl,
    decl_idx: usize,
    sigs: &TypecheckSigs,
    diagnostics: &mut Vec<Diagnostic>,
    rewrites: &mut Vec<TappRewrite>,
)
    requires
        sigs.wf(),
        all_type_errors(old(diagnostics)@),
        rewrites_sorted(old(rewrites)@),
    ensures
        all_type_errors(final(diagnostics)@),
        rewrites_sorted(final(rewrites)@),
        final(diagnostics)@.len() >= old(diagnostics)@.len(),
        diags_view(final(diagnostics)@).take(old(diagnostics)@.len() as int) == diags_view(old(diagnostics)@),
        root_unknown_callee(module_id@, f.body@, sigs.table()) matches Some(d) ==> diag_present(
            final(diagnostics)@,
            d,
        ),
{
    let mut infer = InferState::new(module_id, type_ref_to_term(&f.result));
    let ghost s0 = infer;
    bind_params(&mut infer, f);
    let mut witness_types: Vec<(String, TyTerm)> = Vec::new();
    let ghost s1 = infer;
    if contract_has_clauses(&f.requires, &f.ensures, &f.invariant) {
        reserved_name_diags(&mut infer, f, decl_idx);
        let ghost a = infer;
        check_clauses(&mut infer, sigs, &f.requires, true, &mut witness_types);
        let ghost b = infer;
        infer.push_scope();
        let ghost pushed = infer;
        proof {
            lemma_ext_refl(pushed);
        }
        let info = TyInfoTerm {
            ty: type_ref_to_term(&f.result),
            brand: clone_opt_string(&f.result_brand),
            view_full: false,
        };
        infer.bind("__result".to_string(), info);
        let ghost c = infer;
        check_clauses(&mut infer, sigs, &f.ensures, false, &mut witness_types);
        proof {
            lemma_ext_trans(pushed, c, infer);
        }
        let ghost inner = infer;
        infer.pop_scope();
        proof {
            lemma_ext_scope(b, pushed, inner, infer);
        }
        let ghost d = infer;
        check_clauses(&mut infer, sigs, &f.invariant, true, &mut witness_types);
        proof {
            lemma_ext_trans(s1, a, b);
            lemma_ext_trans(s1, b, d);
            lemma_ext_trans(s1, d, infer);
        }
    } else {
        proof {
            lemma_ext_refl(s1);
        }
    }
    let want = infer.fn_ret.clone();
    let ghost s2 = infer;
    let _ = infer.infer_expr(sigs, &f.body, Some(&want));
    proof {
        lemma_ext_trans(s0, s1, s2);
        lemma_ext_trans(s0, s2, infer);
        let di = infer.diagnostics@;
        assert forall|i: int| 0 <= i < di.len() implies (#[trigger] di[i])@.severity == Severity::Error
            && di[i]@.stage == Stage::Type by {}
    }
    let ghost infer_pre = infer;
    finish_infer(&mut infer, diagnostics, rewrites, &witness_types);
    proof {
        let dd = drain_diags(infer.subst@, infer_pre.pending_tapp@);
        let k = (old(diagnostics)@.len() + dd.len()) as int;
        let dvf = diags_view(diagnostics@);
        if root_unknown_callee(module_id@, f.body@, sigs.table()) is Some {
            let d = root_unknown_callee(module_id@, f.body@, sigs.table())->0;
            let j = s2.diagnostics@.len() as int;
            assert(infer_pre.diagnostics@[j]@ == d);
            assert(dvf.subrange(k, k + infer_pre.diagnostics@.len())[j] == diags_view(infer_pre.diagnostics@)[j]);
            assert(diagnostics@[k + j]@ == d);
        }
        assert(dvf.subrange(0, k) == diags_view(old(diagnostics)@) + dd);
        assert(dvf.take(old(diagnostics)@.len() as int) =~= diags_view(old(diagnostics)@)) by {
            assert forall|i: int| 0 <= i < old(diagnostics)@.len() implies dvf[i] == diags_view(old(diagnostics)@)[i] by {
                assert(dvf.subrange(0, k)[i] == dvf[i]);
            }
        }
    }
}

/// A diagnostic of the report: a type error, or the rewrite diagnostic of
/// one of the recorded rewrites.
pub open spec fn report_diag_ok(d: DiagV, rws: Seq<TappRewrite>, vals: Seq<(Seq<char>, DV)>) -> bool {
    &&& d.severity == Severity::Error
    &&& (d.stage == Stage::Type || (d.stage == Stage::Rewrite && exists|k: int|
        0 <= k < rws.len() && #[trigger] elab_for(d, rws[k]@, vals)))
}

/// `d` is the rewrite diagnostic of `rw`, whose call expression has the
/// value `vals` records for its pointer.
pub open spec fn elab_for(d: DiagV, rw: RewriteV, vals: Seq<(Seq<char>, DV)>) -> bool {
    match value_lookup(vals, rw.call_ptr) {
        Some(b) => match tapp_rewrite_value(b, rw.callee, rw.args) {
            Some(a) => d == tapp_elab_v(rw, b, a),
            None => false,
        },
        None => false,
    }
}

/// The rewrite diagnostic owed for `rw`, when its call expression is known
/// and is a non-empty array.
pub open spec fn elab_owed(rw: RewriteV, vals: Seq<(Seq<char>, DV)>) -> bool {
    match value_lookup(vals, rw.call_ptr) {
        Some(b) => tapp_rewrite_value(b, rw.callee, rw.args) is Some,
        None => false,
    }
}

/// What every report states: rewrites in call-pointer order with no pointer
/// twice; diagnostics in report order, each a type error or the rewrite
/// diagnostic of a recorded rewrite; and that diagnostic present for every
/// rewrite whose call expression is a non-empty array.
pub open spec fn report_ok(r: TypecheckReport, file: X07AstFile) -> bool {
    &&& rewrites_sorted(r.tapp_rewrites@)
    &&& forall|p: int, q: int|
        0 <= p < q < r.diagnostics@.len() ==> dkey_le(
            (#[trigger] r.diagnostics@[p])@,
            (#[trigger] r.diagnostics@[q])@,
        )
    &&& forall|p: int|
        0 <= p < r.diagnostics@.len() ==> report_diag_ok(
            (#[trigger] r.diagnostics@[p])@,
            r.tapp_rewrites@,
            file_values(file),
        )
    &&& forall|k: int|
        0 <= k < r.tapp_rewrites@.len() && elab_owed((#[trigger] r.tapp_rewrites@[k])@, file_values(file))
            ==> exists|p: int|
            0 <= p < r.diagnostics@.len() && elab_for(
                (#[trigger] r.diagnostics@[p])@,
                r.tapp_rewrites@[k]@,
                file_values(file),
            )
}

/// A file with no definitions whose solve expression, if any, is a
/// `bytes.lit` call: it is well typed.
pub open spec fn quiet_file(file: X07AstFile) -> bool {
    &&& file.functions@.len() == 0
    &&& file.async_functions@.len() == 0
    &&& (file.solve matches Some(e) ==> (e@ matches ExprV::List(items, _) && crate::ast::head_ident(items)
        == Some("bytes.lit"@)))
}

/// The unknown-callee diagnostic an expression of module `module_id` is
/// owed when it calls, at its root, a function of this module that `table`
/// does not know.
pub open spec fn root_unknown_callee(module_id: Seq<char>, e: ExprV, table: Map<Seq<char>, FnSigV>) -> Option<
    DiagV,
> {
    match e {
        ExprV::List(items, p) => match crate::ast::head_ident(items) {
            Some(h) => if call_head(h) && h != "bytes.lit"@ && h != "bytes.view_lit"@ && !table.contains_key(h)
                && callee_in_module(h, module_id) {
                Some(unknown_callee_v(h, p))
            } else {
                None
            },
            None => None,
        },
        _ => None,
    }
}

/// The unknown-callee diagnostic a file's solve expression is owed.
pub open spec fn solve_unknown_callee(file: X07AstFile, table: Map<Seq<char>, FnSigV>) -> Option<DiagV> {
    match file.solve {
        Some(e) => root_unknown_callee(file.module_id@, e@, table),
        None => None,
    }
}

/// Some diagnostic of `ds` is `d`.
pub open spec fn diag_present(ds: Seq<Diagnostic>, d: DiagV) -> bool {
    exists|q: int| 0 <= q < ds.len() && (#[trigger] ds[q])@ == d
}

/// The diagnostic that `e` is owed for an unknown callee at its root, if
/// any, is in `ds`.
pub open spec fn callee_reported(
    module_id: Seq<char>,
    e: ExprV,
    table: Map<Seq<char>, FnSigV>,
    ds: Seq<Diagnostic>,
) -> bool {
    match root_unknown_callee(module_id, e, table) {
        Some(d) => diag_present(ds, d),
        None => true,
    }
}

/// Every definition (`defn` and `defasync`) whose body calls an unknown
/// function of the module at its root has that diagnostic in `ds`.
pub open spec fn decls_callees_reported(
    file: X07AstFile,
    table: Map<Seq<char>, FnSigV>,
    ds: Seq<Diagnostic>,
) -> bool {
    &&& forall|i: int|
        0 <= i < file.functions@.len() ==> callee_reported(
            file.module_id@,
            (#[trigger] file.functions@[i]).body@,
            table,
            ds,
        )
    &&& forall|i: int|
        0 <= i < file.async_functions@.len() ==> callee_reported(
            file.module_id@,
            (#[trigger] file.async_functions@[i]).body@,
            table,
            ds,
        )
}

proof fn lemma_present_kept(before: Seq<Diagnostic>, after: Seq<Diagnostic>, d: DiagV)
    requires
        after.len() >= before.len(),
        diags_view(after).take(before.len() as int) == diags_view(before),
        diag_present(before, d),
    ensures
        diag_present(after, d),
{
    let q = choose|q: int| 0 <= q < before.len() && (#[trigger] before[q])@ == d;
    assert(diags_view(after).take(before.len() as int)[q] == diags_view(before)[q]);
    assert(after[q]@ == d);
}

proof fn lemma_reported_kept(
    module_id: Seq<char>,
    e: ExprV,
    table: Map<Seq<char>, FnSigV>,
    before: Seq<Diagnostic>,
    after: Seq<Diagnostic>,
)
    requires
        after.len() >= before.len(),
        diags_view(after).take(before.len() as int) == diags_view(before),
        callee_reported(module_id, e, table, before),
    ensures
        callee_reported(module_id, e, table, after),
{
    if root_unknown_callee(module_id, e, table) is Some {
        lemma_present_kept(before, after, root_unknown_callee(module_id, e, table)->0);
    }
}

proof fn lemma_present_sorted(unsorted: Seq<Diagnostic>, sorted: Seq<Diagnostic>, ids: Seq<int>, d: DiagV)
    requires
        is_stable_sort_of(diags_view(unsorted), diags_view(sorted), ids),
        sorted.len() == unsorted.len(),
        diag_present(unsorted, d),
    ensures
        diag_present(sorted, d),
{
    let q0 = choose|q: int| 0 <= q < unsorted.len() && (#[trigger] unsorted[q])@ == d;
    assert(crate::infer::covers_int(ids, q0));
    let q = choose|q: int| 0 <= q < ids.len() && #[trigger] ids[q] == q0;
    assert(diags_view(sorted)[q] == diags_view(unsorted)[q0]);
    assert(sorted[q]@ == d);
}

/// Typechecks `file` against the signatures `sigs`. The solve expression
/// and every definition body that calls, at its root, a function of the
/// module that `sigs` does not know get the unknown-callee diagnostic.
pub fn typecheck_file_with_sigs(file: &X07AstFile, sigs: &TypecheckSigs, _opts: &TypecheckOptions) -> (r: TypecheckReport)
    requires
        sigs.wf(),
        decl_counts_fit(*file),
    ensures
        report_ok(r, *file),
        solve_unknown_callee(*file, sigs.table()) matches Some(d) ==> exists|q: int|
            0 <= q < r.diagnostics@.len() && (#[trigger] r.diagnostics@[q])@ == d,
        quiet_file(*file) ==> r.diagnostics@.len() == 0 && r.tapp_rewrites@.len() == 0,
        decls_callees_reported(*file, sigs.table(), r.diagnostics@),
{
    typecheck_file_impl(file, sigs)
}

/// Typechecks `file` against its own signatures and the builtins.
pub fn typecheck_file_local(file: &X07AstFile, _opts: &TypecheckOptions) -> (r: TypecheckReport)
    requires
        decl_counts_fit(*file),
    ensures
        report_ok(r, *file),
        solve_unknown_callee(
            *file,
            insert_sigs(insert_sigs(Map::<Seq<char>, FnSigV>::empty(), file_entries(*file)), builtin_entries()),
        ) matches Some(d) ==> exists|q: int| 0 <= q < r.diagnostics@.len() && (#[trigger] r.diagnostics@[q])@ == d,
        quiet_file(*file) ==> r.diagnostics@.len() == 0 && r.tapp_rewrites@.len() == 0,
        decls_callees_reported(
            *file,
            insert_sigs(insert_sigs(Map::<Seq<char>, FnSigV>::empty(), file_entries(*file)), builtin_entries()),
            r.diagnostics@,
        ),
{
    let sigs = TypecheckSigs::for_file_with_builtins(file);
    typecheck_file_impl(file, &sigs)
}

fn typecheck_file_impl(file: &X07AstFile, sigs: &TypecheckSigs) -> (r: TypecheckReport)
    requires
        sigs.wf(),
        decl_counts_fit(*file),
    ensures
        report_ok(r, *file),
        solve_unknown_callee(*file, sigs.table()) matches Some(d) ==> exists|q: int|
            0 <= q < r.diagnostics@.len() && (#[trigger] r.diagnostics@[q])@ == d,
        quiet_file(*file) ==> r.diagnostics@.len() == 0 && r.tapp_rewrites@.len() == 0,
        decls_callees_reported(*file, sigs.table(), r.diagnostics@),
{
    let ghost quiet = quiet_file(*file);
    let expr_values = file_expr_values(file);
    let mut diagnostics: Vec<Diagnostic> = Vec::new();
    let mut rewrites: Vec<TappRewrite> = Vec::new();
    let slots = export_slots_of(file);
    let defn_base = slots + file.extern_functions.len();
    let ghost owed = solve_unknown_callee(*file, sigs.table());
    let ghost mut pos: int = 0;
    match &file.solve {
        Some(solve) => {
            let bytes_ty = TyTerm::Named("bytes".to_string());
            let mut infer = InferState::new(file.module_id.as_str(), bytes_ty.clone());
            let ghost i0 = infer;
            let _ = infer.infer_expr(sigs, solve, Some(&bytes_ty));
            let ghost i1 = infer;
            let no_witnesses: Vec<(String, TyTerm)> = Vec::new();
            proof {
                if quiet {
                    assert(forall|i: int| 0 <= i < i1.constraints@.len() ==> (#[trigger] i1.constraints@[i]).lhs@
                        == i1.constraints@[i].rhs@) by {
                        assert forall|i: int| 0 <= i < i1.constraints@.len() implies (
                        #[trigger] i1.constraints@[i]).lhs@ == i1.constraints@[i].rhs@ by {
                            assert(i == 0);
                        }
                    }
                }
            }
            finish_infer(&mut infer, &mut diagnostics, &mut rewrites, &no_witnesses);
            proof {
                let dd = drain_diags(infer.subst@, i1.pending_tapp@);
                pos = dd.len() as int;
                if owed is Some {
                    assert(i1.diagnostics@[0]@ == owed->0);
                    assert(diags_view(diagnostics@).subrange(pos, pos + i1.diagnostics@.len())[0]
                        == diags_view(i1.diagnostics@)[0]);
                    assert(diagnostics@[pos]@ == owed->0);
                }
                if quiet {
                    assert(diagnostics@ =~= Seq::<Diagnostic>::empty());
                }
            }
        },
        None => {},
    }
    let mut idx: usize = 0;
    while idx < file.functions.len()
        invariant
            sigs.wf(),
            decl_counts_fit(*file),
            defn_base == export_slots(*file) + file.extern_functions@.len(),
            idx <= file.functions.len(),
            all_type_errors(diagnostics@),
            rewrites_sorted(rewrites@),
            owed == solve_unknown_callee(*file, sigs.table()),
            owed matches Some(d) ==> 0 <= pos < diagnostics@.len() && diagnostics@[pos]@ == d,
            quiet == quiet_file(*file),
            quiet ==> diagnostics@.len() == 0 && rewrites@.len() == 0,
            forall|i: int|
                0 <= i < idx ==> callee_reported(
                    file.module_id@,
                    (#[trigger] file.functions@[i]).body@,
                    sigs.table(),
                    diagnostics@,
                ),
        decreases file.functions.len() - idx,
    {
        let ghost before = diagnostics@;
        typecheck_decl(
            file.module_id.as_str(),
            &file.functions[idx],
            defn_base + idx,
            sigs,
            &mut diagnostics,
            &mut rewrites,
        );
        proof {
            assert forall|i: int| 0 <= i < idx + 1 implies callee_reported(
                file.module_id@,
                (#[trigger] file.functions@[i]).body@,
                sigs.table(),
                diagnostics@,
            ) by {
                if i < idx {
                    lemma_reported_kept(file.module_id@, file.functions@[i].body@, sigs.table(), before, diagnostics@);
                }
            }
            if owed is Some {
                assert(diags_view(diagnostics@).take(before.len() as int)[pos] == diags_view(before)[pos]);
                assert(diags_view(diagnostics@)[pos] == diagnostics@[pos]@);
                assert(diags_view(before)[pos] == before[pos]@);
            }
        }
        idx = idx + 1;
    }
    let mut idx: usize = 0;
    while idx < file.async_functions.len()
        invariant
            sigs.wf(),
            decl_counts_fit(*file),
            defn_base == export_slots(*file) + file.extern_functions@.len(),
            idx <= file.async_functions.len(),
            all_type_errors(diagnostics@),
            rewrites_sorted(rewrites@),
            owed == solve_unknown_callee(*file, sigs.table()),
            owed matches Some(d) ==> 0 <= pos < diagnostics@.len() && diagnostics@[pos]@ == d,
            quiet == quiet_file(*file),
            quiet ==> diagnostics@.len() == 0 && rewrites@.len() == 0,
            forall|i: int|
                0 <= i < file.functions@.len() ==> callee_reported(
                    file.module_id@,
                    (#[trigger] file.functions@[i]).body@,
                    sigs.table(),
                    diagnostics@,
                ),
            forall|i: int|
                0 <= i < idx ==> callee_reported(
                    file.module_id@,
                    (#[trigger] file.async_functions@[i]).body@,
                    sigs.table(),
                    diagnostics@,
                ),
        decreases file.async_functions.len() - idx,
    {
        let ghost before = diagnostics@;
        typecheck_decl(
            file.module_id.as_str(),
            &file.async_functions[idx],
            defn_base + file.functions.len() + idx,
            sigs,
            &mut diagnostics,
            &mut rewrites,
        );
        proof {
            assert forall|i: int| 0 <= i < file.functions@.len() implies callee_reported(
                file.module_id@,
                (#[trigger] file.functions@[i]).body@,
                sigs.table(),
                diagnostics@,
            ) by {
                lemma_reported_kept(file.module_id@, file.functions@[i].body@, sigs.table(), before, diagnostics@);
            }
            assert forall|i: int| 0 <= i < idx + 1 implies callee_reported(
                file.module_id@,
                (#[trigger] file.async_functions@[i]).body@,
                sigs.table(),
                diagnostics@,
            ) by {
                if i < idx {
                    lemma_reported_kept(
                        file.module_id@,
                        file.async_functions@[i].body@,
                        sigs.table(),
                        before,
                        diagnostics@,
                    );
                }
            }
            if owed is Some {
                assert(diags_view(diagnostics@).take(before.len() as int)[pos] == diags_view(before)[pos]);
                assert(diags_view(diagnostics@)[pos] == diagnostics@[pos]@);
                assert(diags_view(before)[pos] == before[pos]@);
            }
        }
        idx = idx + 1;
    }
    let ghost vals = file_values(*file);
    let ghost base_len = diagnostics@.len();
    let mut k: usize = 0;
    while k < rewrites.len()
        invariant
            data_view(expr_values@) == vals,
            vals == file_values(*file),
            k <= rewrites.len(),
            base_len <= diagnostics@.len(),
            decls_callees_reported(*file, sigs.table(), diagnostics@),
            owed == solve_unknown_callee(*file, sigs.table()),
            owed matches Some(d) ==> 0 <= pos < diagnostics@.len() && diagnostics@[pos]@ == d,
            quiet == quiet_file(*file),
            quiet ==> diagnostics@.len() == 0 && rewrites@.len() == 0,
            forall|p: int|
                0 <= p < diagnostics@.len() ==> report_diag_ok(
                    (#[trigger] diagnostics@[p])@,
                    rewrites@,
                    vals,
                ),
            forall|j: int|
                0 <= j < k && elab_owed((#[trigger] rewrites@[j])@, vals) ==> exists|p: int|
                    0 <= p < diagnostics@.len() && elab_for(
                        (#[trigger] diagnostics@[p])@,
                        rewrites@[j]@,
                        vals,
                    ),
        decreases rewrites.len() - k,
    {
        let r = &rewrites[k];
        match values_get(&expr_values, r.call_ptr.as_str()) {
            Some(before) => {
                match tapp_call_rewrite_expr(before, r.callee.as_str(), &r.inferred_type_args) {
                    Some(after) => {
                        let d = diag_for_tapp_elab(r, before, after);
                        let ghost dlen = diagnostics@.len();
                        let ghost old_d = diagnostics@;
                        diagnostics.push(d);
                        proof {
                            assert(diags_view(diagnostics@).take(old_d.len() as int) =~= diags_view(old_d));
                            assert forall|i: int| 0 <= i < file.functions@.len() implies callee_reported(
                                file.module_id@,
                                (#[trigger] file.functions@[i]).body@,
                                sigs.table(),
                                diagnostics@,
                            ) by {
                                lemma_reported_kept(
                                    file.module_id@,
                                    file.functions@[i].body@,
                                    sigs.table(),
                                    old_d,
                                    diagnostics@,
                                );
                            }
                            assert forall|i: int| 0 <= i < file.async_functions@.len() implies callee_reported(
                                file.module_id@,
                                (#[trigger] file.async_functions@[i]).body@,
                                sigs.table(),
                                diagnostics@,
                            ) by {
                                lemma_reported_kept(
                                    file.module_id@,
                                    file.async_functions@[i].body@,
                                    sigs.table(),
                                    old_d,
                                    diagnostics@,
                                );
                            }
                            assert(elab_for(diagnostics@[dlen as int]@, rewrites@[k as int]@, vals));
                            assert forall|j: int|
                                0 <= j < k + 1 && elab_owed((#[trigger] rewrites@[j])@, vals) implies exists|p: int|
                                0 <= p < diagnostics@.len() && elab_for(
                                    (#[trigger] diagnostics@[p])@,
                                    rewrites@[j]@,
                                    vals,
                                ) by {
                                if j == k {
                                    assert(elab_for(diagnostics@[dlen as int]@, rewrites@[j]@, vals));
                                } else {
                                    let p0 = choose|p: int|
                                        0 <= p < old_d.len() && elab_for(
                                            (#[trigger] old_d[p])@,
                                            rewrites@[j]@,
                                            vals,
                                        );
                                    assert(diagnostics@[p0] == old_d[p0]);
                                }
                            }
                            assert forall|p: int| 0 <= p < diagnostics@.len() implies report_diag_ok(
                                (#[trigger] diagnostics@[p])@,
                                rewrites@,
                                vals,
                            ) by {
                                if p == dlen {
                                    assert(elab_for(diagnostics@[p]@, rewrites@[k as int]@, vals));
                                } else {
                                    assert(diagnostics@[p] == old_d[p]);
                                }
                            }
                        }
                    },
                    None => {},
                }
            },
            None => {},
        }
        k = k + 1;
    }
    let ghost unsorted = diagnostics@;
    typecheck_sort_diagnostics_in_place(&mut diagnostics);
    proof {
        let ids = choose|ids: Seq<int>| is_stable_sort_of(diags_view(unsorted), diags_view(diagnostics@), ids);
        assert(diags_view(diagnostics@).len() == diagnostics@.len());
        assert(diags_view(unsorted).len() == unsorted.len());
        assert forall|i: int| 0 <= i < file.functions@.len() implies callee_reported(
            file.module_id@,
            (#[trigger] file.functions@[i]).body@,
            sigs.table(),
            diagnostics@,
        ) by {
            if root_unknown_callee(file.module_id@, file.functions@[i].body@, sigs.table()) is Some {
                lemma_present_sorted(
                    unsorted,
                    diagnostics@,
                    ids,
                    root_unknown_callee(file.module_id@, file.functions@[i].body@, sigs.table())->0,
                );
            }
        }
        assert forall|i: int| 0 <= i < file.async_functions@.len() implies callee_reported(
            file.module_id@,
            (#[trigger] file.async_functions@[i]).body@,
            sigs.table(),
            diagnostics@,
        ) by {
            if root_unknown_callee(file.module_id@, file.async_functions@[i].body@, sigs.table()) is Some {
                lemma_present_sorted(
                    unsorted,
                    diagnostics@,
                    ids,
                    root_unknown_callee(file.module_id@, file.async_functions@[i].body@, sigs.table())->0,
                );
            }
        }
        if owed is Some {
            assert(crate::infer::covers_int(ids, pos));
            let q = choose|q: int| 0 <= q < ids.len() && #[trigger] ids[q] == pos;
            assert(diags_view(diagnostics@)[q] == diags_view(unsorted)[pos]);
            assert(diags_view(unsorted)[pos] == unsorted[pos]@);
            assert(diags_view(diagnostics@)[q] == diagnostics@[q]@);
        }
        let d = diagnostics@;
        assert forall|p: int| 0 <= p < d.len() implies report_diag_ok((#[trigger] d[p])@, rewrites@, vals) by {
            assert(diags_view(d)[p] == d[p]@);
            assert(diags_view(d)[p] == diags_view(unsorted)[ids[p]]);
            assert(diags_view(unsorted)[ids[p]] == unsorted[ids[p]]@);
        }
        assert forall|p: int, q: int| 0 <= p < q < d.len() implies dkey_le((#[trigger] d[p])@, (#[trigger] d[q])@) by {
            assert(diags_view(d)[p] == d[p]@);
            assert(diags_view(d)[q] == d[q]@);
        }
        assert forall|j: int| 0 <= j < rewrites@.len() && elab_owed((#[trigger] rewrites@[j])@, vals) implies exists|p: int|
            0 <= p < d.len() && elab_for((#[trigger] d[p])@, rewrites@[j]@, vals) by {
            let p0 = choose|p: int| 0 <= p < unsorted.len() && elab_for((#[trigger] unsorted[p])@, rewrites@[j]@, vals);
            assert(crate::infer::covers_int(ids, p0));
            let q = choose|q: int| 0 <= q < ids.len() && #[trigger] ids[q] == p0;
            assert(diags_view(d)[q] == d[q]@);
            assert(diags_view(d)[q] == diags_view(unsorted)[p0]);
            assert(diags_view(unsorted)[p0] == unsorted[p0]@);
            assert(elab_for(d[q]@, rewrites@[j]@, vals));
        }
    }
    let r = TypecheckReport { diagnostics, tapp_rewrites: rewrites };
    assert(r.diagnostics@ == diagnostics@);
    assert(r.tapp_rewrites@ == rewrites@);
    assert(vals == file_values(*file));
    assert(report_ok(r, *file));
    r
}

} // verus!

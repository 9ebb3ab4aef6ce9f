//! Rules for function contracts (`requires` / `ensures` / `invariant`
//! clauses): which calls a clause may make, which witness types are allowed,
//! and the diagnostics that report a broken rule.

use vstd::prelude::*;
use crate::ast::{head_ident, expr_ident, lemma_view_exprs, view_exprs, Expr, ExprV};
use crate::diagnostics::{Diagnostic, DiagV, LocV, Location, Severity, Stage};
use crate::text::{
    concat_str, debug_str, dec, seq_starts_with, spec_debug_str, str_eq, str_starts_with,
    u64_to_dec,
};
use crate::typecheck::pairs_view;
use crate::unify::{TyT, TyTerm};

verus! {

/// The builtins and operators a contract clause may call by name.
pub open spec fn pure_head_listed(h: Seq<char>) -> bool {
    ||| h == "+"@
    ||| h == "-"@
    ||| h == "*"@
    ||| h == "/"@
    ||| h == "%"@
    ||| h == "="@
    ||| h == "!="@
    ||| h == "<"@
    ||| h == "<="@
    ||| h == ">"@
    ||| h == ">="@
    ||| h == "<u"@
    ||| h == "<=u"@
    ||| h == ">u"@
    ||| h == ">=u"@
    ||| h == "<<u"@
    ||| h == ">>u"@
    ||| h == "&"@
    ||| h == "|"@
    ||| h == "^"@
    ||| h == "&&"@
    ||| h == "||"@
    ||| h == "bytes.lit"@
    ||| h == "bytes.view_lit"@
    ||| h == "i32.lit"@
    ||| h == "bytes.view"@
    ||| h == "bytes.subview"@
    ||| h == "bytes.len"@
    ||| h == "bytes.get_u8"@
    ||| h == "bytes.eq"@
    ||| h == "bytes.cmp_range"@
    ||| h == "view.len"@
    ||| h == "view.get_u8"@
    ||| h == "view.slice"@
    ||| h == "view.to_bytes"@
}

/// A head a contract clause may call: a listed builtin or operator, or any
/// `option_*` / `result_*` helper.
pub open spec fn contract_pure_head(h: Seq<char>) -> bool {
    pure_head_listed(h) || seq_starts_with(h, "option_"@) || seq_starts_with(h, "result_"@)
}

/// The forms that change state or leave early are never allowed in a
/// contract, and every `i32` operator the WASM back end lowers is.
pub proof fn lemma_contract_purity_consistent(h: Seq<char>)
    ensures
        impure_form(h) ==> !contract_pure_head(h),
        crate::wasm_emit::emit_module::binop_head(h) is Some ==> contract_pure_head(h),
{
    reveal_strlit("+");
    reveal_strlit("-");
    reveal_strlit("*");
    reveal_strlit("/");
    reveal_strlit("%");
    reveal_strlit("=");
    reveal_strlit("!=");
    reveal_strlit("<");
    reveal_strlit("<=");
    reveal_strlit(">");
    reveal_strlit(">=");
    reveal_strlit("<u");
    reveal_strlit("<=u");
    reveal_strlit(">u");
    reveal_strlit(">=u");
    reveal_strlit("<<u");
    reveal_strlit(">>u");
    reveal_strlit("&");
    reveal_strlit("|");
    reveal_strlit("^");
    reveal_strlit("&&");
    reveal_strlit("||");
    reveal_strlit("bytes.lit");
    reveal_strlit("bytes.view_lit");
    reveal_strlit("i32.lit");
    reveal_strlit("bytes.view");
    reveal_strlit("bytes.subview");
    reveal_strlit("bytes.len");
    reveal_strlit("bytes.get_u8");
    reveal_strlit("bytes.eq");
    reveal_strlit("bytes.cmp_range");
    reveal_strlit("view.len");
    reveal_strlit("view.get_u8");
    reveal_strlit("view.slice");
    reveal_strlit("view.to_bytes");
    reveal_strlit("unsafe");
    reveal_strlit("set");
    reveal_strlit("set0");
    reveal_strlit("for");
    reveal_strlit("return");
    reveal_strlit("try");
    reveal_strlit("option_");
    reveal_strlit("result_");
    assert("+"@.len() == 1);
    assert("-"@.len() == 1);
    assert("*"@.len() == 1);
    assert("/"@.len() == 1);
    assert("%"@.len() == 1);
    assert("="@.len() == 1);
    assert("!="@.len() == 2);
    assert("<"@.len() == 1);
    assert("<="@.len() == 2);
    assert(">"@.len() == 1);
    assert(">="@.len() == 2);
    assert("<u"@.len() == 2);
    assert("<=u"@.len() == 3);
    assert(">u"@.len() == 2);
    assert(">=u"@.len() == 3);
    assert("<<u"@.len() == 3);
    assert(">>u"@.len() == 3);
    assert("&"@.len() == 1);
    assert("|"@.len() == 1);
    assert("^"@.len() == 1);
    assert("&&"@.len() == 2);
    assert("||"@.len() == 2);
    assert("bytes.lit"@.len() == 9);
    assert("bytes.view_lit"@.len() == 14);
    assert("i32.lit"@.len() == 7);
    assert("bytes.view"@.len() == 10);
    assert("bytes.subview"@.len() == 13);
    assert("bytes.len"@.len() == 9);
    assert("bytes.get_u8"@.len() == 12);
    assert("bytes.eq"@.len() == 8);
    assert("bytes.cmp_range"@.len() == 15);
    assert("view.len"@.len() == 8);
    assert("view.get_u8"@.len() == 11);
    assert("view.slice"@.len() == 10);
    assert("view.to_bytes"@.len() == 13);
    assert("unsafe"@.len() == 6);
    assert("set"@.len() == 3);
    assert("set0"@.len() == 4);
    assert("for"@.len() == 3);
    assert("return"@.len() == 6);
    assert("try"@.len() == 3);
    assert("option_"@.len() == 7);
    assert("result_"@.len() == 7);
    assert("+"@[0] == '+' && "-"@[0] == '-');
    assert("+"@[0] == '+' && "/"@[0] == '/');
    assert("+"@[0] == '+' && "="@[0] == '=');
    assert("+"@[0] == '+' && "<"@[0] == '<');
    assert("+"@[0] == '+' && ">"@[0] == '>');
    assert("+"@[0] == '+' && "|"@[0] == '|');
    assert("+"@[0] == '+' && "^"@[0] == '^');
    assert("-"@[0] == '-' && "/"@[0] == '/');
    assert("-"@[0] == '-' && "="@[0] == '=');
    assert("-"@[0] == '-' && "<"@[0] == '<');
    assert("-"@[0] == '-' && ">"@[0] == '>');
    assert("-"@[0] == '-' && "|"@[0] == '|');
    assert("-"@[0] == '-' && "^"@[0] == '^');
    assert("*"@[0] == '*' && "+"@[0] == '+');
    assert("*"@[0] == '*' && "-"@[0] == '-');
    assert("*"@[0] == '*' && "/"@[0] == '/');
    assert("*"@[0] == '*' && "="@[0] == '=');
    assert("*"@[0] == '*' && "<"@[0] == '<');
    assert("*"@[0] == '*' && ">"@[0] == '>');
    assert("*"@[0] == '*' && "|"@[0] == '|');
    assert("*"@[0] == '*' && "^"@[0] == '^');
    assert("/"@[0] == '/' && "="@[0] == '=');
    assert("/"@[0] == '/' && "<"@[0] == '<');
    assert("/"@[0] == '/' && ">"@[0] == '>');
    assert("/"@[0] == '/' && "|"@[0] == '|');
    assert("/"@[0] == '/' && "^"@[0] == '^');
    assert("%"@[0] == '%' && "+"@[0] == '+');
    assert("%"@[0] == '%' && "-"@[0] == '-');
    assert("%"@[0] == '%' && "*"@[0] == '*');
    assert("%"@[0] == '%' && "/"@[0] == '/');
    assert("%"@[0] == '%' && "="@[0] == '=');
    assert("%"@[0] == '%' && "<"@[0] == '<');
    assert("%"@[0] == '%' && ">"@[0] == '>');
    assert("%"@[0] == '%' && "&"@[0] == '&');
    assert("%"@[0] == '%' && "|"@[0] == '|');
    assert("%"@[0] == '%' && "^"@[0] == '^');
    assert("="@[0] == '=' && ">"@[0] == '>');
    assert("="@[0] == '=' && "|"@[0] == '|');
    assert("="@[0] == '=' && "^"@[0] == '^');
    assert("!="@[0] == '!' && "<="@[0] == '<');
    assert("!="@[0] == '!' && ">="@[0] == '>');
    assert("!="@[0] == '!' && "<u"@[0] == '<');
    assert("!="@[0] == '!' && ">u"@[0] == '>');
    assert("!="@[0] == '!' && "&&"@[0] == '&');
    assert("!="@[0] == '!' && "||"@[0] == '|');
    assert("<"@[0] == '<' && "="@[0] == '=');
    assert("<"@[0] == '<' && ">"@[0] == '>');
    assert("<"@[0] == '<' && "|"@[0] == '|');
    assert("<"@[0] == '<' && "^"@[0] == '^');
    assert("<="@[0] == '<' && ">="@[0] == '>');
    assert("<="@[1] == '=' && "<u"@[1] == 'u');
    assert("<="@[0] == '<' && ">u"@[0] == '>');
    assert("<="@[0] == '<' && "||"@[0] == '|');
    assert(">"@[0] == '>' && "|"@[0] == '|');
    assert(">"@[0] == '>' && "^"@[0] == '^');
    assert(">="@[1] == '=' && ">u"@[1] == 'u');
    assert(">="@[0] == '>' && "||"@[0] == '|');
    assert("<u"@[0] == '<' && ">="@[0] == '>');
    assert("<u"@[0] == '<' && ">u"@[0] == '>');
    assert("<u"@[0] == '<' && "||"@[0] == '|');
    assert("<=u"@[0] == '<' && ">=u"@[0] == '>');
    assert("<=u"@[0] == '<' && ">>u"@[0] == '>');
    assert("<=u"@[0] == '<' && "set"@[0] == 's');
    assert("<=u"@[0] == '<' && "for"@[0] == 'f');
    assert("<=u"@[0] == '<' && "try"@[0] == 't');
    assert(">u"@[0] == '>' && "||"@[0] == '|');
    assert(">=u"@[1] == '=' && ">>u"@[1] == '>');
    assert(">=u"@[0] == '>' && "set"@[0] == 's');
    assert(">=u"@[0] == '>' && "for"@[0] == 'f');
    assert(">=u"@[0] == '>' && "try"@[0] == 't');
    assert("<<u"@[1] == '<' && "<=u"@[1] == '=');
    assert("<<u"@[0] == '<' && ">=u"@[0] == '>');
    assert("<<u"@[0] == '<' && ">>u"@[0] == '>');
    assert("<<u"@[0] == '<' && "set"@[0] == 's');
    assert("<<u"@[0] == '<' && "for"@[0] == 'f');
    assert("<<u"@[0] == '<' && "try"@[0] == 't');
    assert(">>u"@[0] == '>' && "set"@[0] == 's');
    assert(">>u"@[0] == '>' && "for"@[0] == 'f');
    assert(">>u"@[0] == '>' && "try"@[0] == 't');
    assert("&"@[0] == '&' && "+"@[0] == '+');
    assert("&"@[0] == '&' && "-"@[0] == '-');
    assert("&"@[0] == '&' && "*"@[0] == '*');
    assert("&"@[0] == '&' && "/"@[0] == '/');
    assert("&"@[0] == '&' && "="@[0] == '=');
    assert("&"@[0] == '&' && "<"@[0] == '<');
    assert("&"@[0] == '&' && ">"@[0] == '>');
    assert("&"@[0] == '&' && "|"@[0] == '|');
    assert("&"@[0] == '&' && "^"@[0] == '^');
    assert("^"@[0] == '^' && "|"@[0] == '|');
    assert("&&"@[0] == '&' && "<="@[0] == '<');
    assert("&&"@[0] == '&' && ">="@[0] == '>');
    assert("&&"@[0] == '&' && "<u"@[0] == '<');
    assert("&&"@[0] == '&' && ">u"@[0] == '>');
    assert("&&"@[0] == '&' && "||"@[0] == '|');
    assert("i32.lit"@[0] == 'i' && "option_"@[0] == 'o');
    assert("i32.lit"@[0] == 'i' && "result_"@[0] == 'r');
    assert("bytes.view"@[0] == 'b' && "view.slice"@[0] == 'v');
    assert("bytes.subview"@[0] == 'b' && "view.to_bytes"@[0] == 'v');
    assert("bytes.len"@[7] == 'e' && "bytes.lit"@[7] == 'i');
    assert("bytes.eq"@[0] == 'b' && "view.len"@[0] == 'v');
    assert("set"@[0] == 's' && "try"@[0] == 't');
    assert("for"@[0] == 'f' && "set"@[0] == 's');
    assert("for"@[0] == 'f' && "try"@[0] == 't');
    assert("return"@[0] == 'r' && "unsafe"@[0] == 'u');
    assert("option_"@[0] == 'o' && "result_"@[0] == 'r');
    if h == "+"@ {
    } else if h == "-"@ {
    } else if h == "*"@ {
    } else if h == "/"@ {
    } else if h == "%"@ {
    } else if h == "&"@ {
    } else if h == "|"@ {
    } else if h == "^"@ {
    } else if h == "="@ {
    } else if h == "!="@ {
    } else if h == "<"@ {
    } else if h == "<u"@ {
    } else if h == "<=u"@ {
    } else if h == ">=u"@ {
    } else if h == "<="@ {
    } else if h == ">="@ {
    } else if h == ">"@ {
    } else if h == ">u"@ {
    } else if h == "<<u"@ {
    } else if h == ">>u"@ {
    }
}

pub fn contract_pure_call_head(head: &str) -> (r: bool)
    ensures
        r == contract_pure_head(head@),
{
    let listed = str_eq(head, "+") || str_eq(head, "-") || str_eq(head, "*") || str_eq(head, "/")
        || str_eq(head, "%") || str_eq(head, "=") || str_eq(head, "!=") || str_eq(head, "<")
        || str_eq(head, "<=") || str_eq(head, ">") || str_eq(head, ">=") || str_eq(head, "<u")
        || str_eq(head, "<=u") || str_eq(head, ">u") || str_eq(head, ">=u") || str_eq(head, "<<u")
        || str_eq(head, ">>u") || str_eq(head, "&") || str_eq(head, "|") || str_eq(head, "^")
        || str_eq(head, "&&") || str_eq(head, "||") || str_eq(head, "bytes.lit") || str_eq(
        head,
        "bytes.view_lit",
    ) || str_eq(head, "i32.lit") || str_eq(head, "bytes.view") || str_eq(head, "bytes.subview")
        || str_eq(head, "bytes.len") || str_eq(head, "bytes.get_u8") || str_eq(head, "bytes.eq")
        || str_eq(head, "bytes.cmp_range") || str_eq(head, "view.len") || str_eq(
        head,
        "view.get_u8",
    ) || str_eq(head, "view.slice") || str_eq(head, "view.to_bytes");
    if listed {
        return true;
    }
    str_starts_with(head, "option_") || str_starts_with(head, "result_")
}

pub open spec fn impure_prefix() -> Seq<char> {
    "contract expression is not pure: "@
}

/// Message for a list whose head is not an identifier.
pub open spec fn msg_head_not_ident() -> Seq<char> {
    "contract expression is not pure: list head must be an identifier"@
}

/// Special forms that a contract clause may not use.
pub open spec fn impure_form(h: Seq<char>) -> bool {
    h == "unsafe"@ || h == "set"@ || h == "set0"@ || h == "for"@ || h == "return"@ || h == "try"@
}

/// The callee named by a `tapp` form (empty when it is not an identifier).
pub open spec fn tapp_callee(items: Seq<ExprV>) -> Seq<char> {
    if items.len() > 1 {
        match expr_ident(items[1]) {
            Some(c) => c,
            None => Seq::empty(),
        }
    } else {
        Seq::empty()
    }
}

/// `(ptr, message)` for every impure construct in a contract expression, in
/// pre-order.
pub open spec fn impurity(e: ExprV) -> Seq<(Seq<char>, Seq<char>)>
    decreases e, 1nat,
{
    match e {
        ExprV::List(items, ptr) => match head_ident(items) {
            None => seq![(ptr, msg_head_not_ident())] + impurity_items(items),
            Some(h) => if h == "begin"@ || h == "if"@ {
                impurity_items(items.skip(1))
            } else if h == "let"@ {
                if items.len() > 2 {
                    impurity(items[2])
                } else {
                    Seq::empty()
                }
            } else if h == "tapp"@ {
                let callee = tapp_callee(items);
                let own = if contract_pure_head(callee) {
                    Seq::empty()
                } else {
                    seq![(ptr, impure_prefix() + "disallowed callee "@ + spec_debug_str(callee))]
                };
                own + if items.len() > 3 {
                    impurity_items(items.skip(3))
                } else {
                    Seq::empty()
                }
            } else if impure_form(h) {
                seq![(ptr, impure_prefix() + "disallowed form "@ + spec_debug_str(h))]
            } else {
                let own = if contract_pure_head(h) {
                    Seq::empty()
                } else {
                    seq![(ptr, impure_prefix() + "disallowed call "@ + spec_debug_str(h))]
                };
                own + impurity_items(items.skip(1))
            },
        },
        _ => Seq::empty(),
    }
}

pub open spec fn impurity_items(s: Seq<ExprV>) -> Seq<(Seq<char>, Seq<char>)>
    decreases s, 0nat,
{
    if s.len() == 0 {
        Seq::empty()
    } else {
        impurity_items(s.drop_last()) + impurity(s.last())
    }
}

/// Walks `items[start..]` of the list `whole`, collecting impure constructs.
fn collect_impurity_from(
    whole: &Expr,
    items: &Vec<Expr>,
    start: usize,
    out: &mut Vec<(String, String)>,
)
    requires
        whole@ matches ExprV::List(vs, _) && vs == view_exprs(items@),
        start <= items@.len(),
    ensures
        pairs_view(final(out)@) == pairs_view(old(out)@) + impurity_items(
            view_exprs(items@).skip(start as int),
        ),
    decreases whole@, 0nat,
{
    proof {
        lemma_view_exprs(items@);
    }
    let ghost vs = view_exprs(items@);
    let ghost o = pairs_view(out@);
    let mut i: usize = start;
    assert(vs.subrange(start as int, start as int) =~= Seq::<ExprV>::empty());
    assert(o + impurity_items(vs.subrange(start as int, start as int)) =~= o);
    while i < items.len()
        invariant
            whole@ matches ExprV::List(ws, _) && ws == vs,
            vs == view_exprs(items@),
            vs.len() == items@.len(),
            forall|j: int| 0 <= j < items@.len() ==> #[trigger] vs[j] == items@[j]@,
            start <= i <= items.len(),
            pairs_view(out@) == o + impurity_items(vs.subrange(start as int, i as int)),
        decreases items.len() - i,
    {
        proof {
            assert(vs[i as int] == items@[i as int]@);
            assert(whole@->List_0 == vs);
            assert(decreases_to!(whole@ => whole@->List_0));
            assert(decreases_to!(vs => vs[i as int]));
            assert(vs.subrange(start as int, i + 1).drop_last() =~= vs.subrange(
                start as int,
                i as int,
            ));
            assert(vs.subrange(start as int, i + 1).last() == vs[i as int]);
        }
        contract_collect_impurity(&items[i], out);
        proof {
            assert(pairs_view(out@) =~= o + impurity_items(vs.subrange(start as int, i + 1)));
        }
        i = i + 1;
    }
    assert(vs.subrange(start as int, items.len() as int) =~= vs.skip(start as int));
}

/// Appends `(list pointer, message)` for each impure construct of `expr`.
pub fn contract_collect_impurity(expr: &Expr, out: &mut Vec<(String, String)>)
    ensures
        pairs_view(final(out)@) == pairs_view(old(out)@) + impurity(expr@),
    decreases expr@, 1nat,
{
    let ghost o = pairs_view(out@);
    match expr {
        Expr::List { items, ptr } => {
            proof {
                lemma_view_exprs(items@);
            }
            let ghost vs = view_exprs(items@);
            let head = if items.len() > 0 {
                items[0].as_ident()
            } else {
                None
            };
            match head {
                None => {
                    out.push(
                        (
                            ptr.clone(),
                            "contract expression is not pure: list head must be an identifier".to_string(),
                        ),
                    );
                    let ghost mid = pairs_view(out@);
                    assert(mid =~= o + seq![(ptr@, msg_head_not_ident())]);
                    assert(vs.skip(0) =~= vs);
                    collect_impurity_from(expr, items, 0, out);
                },
                Some(h) => {
                    if str_eq(h, "begin") || str_eq(h, "if") {
                        collect_impurity_from(expr, items, 1, out);
                    } else if str_eq(h, "let") {
                        if items.len() > 2 {
                            proof {
                                assert(vs[2] == items@[2]@);
                                assert(expr@->List_0 == vs);
                                assert(decreases_to!(expr@ => expr@->List_0));
                                assert(decreases_to!(vs => vs[2]));
                            }
                            contract_collect_impurity(&items[2], out);
                        } else {
                            assert(o + Seq::<(Seq<char>, Seq<char>)>::empty() =~= o);
                        }
                    } else if str_eq(h, "tapp") {
                        let callee: &str = if items.len() > 1 {
                            match items[1].as_ident() {
                                Some(c) => c,
                                None => "",
                            }
                        } else {
                            ""
                        };
                        proof {
                            if items@.len() > 1 {
                                assert(vs[1] == items@[1]@);
                            }
                            assert(callee@ == tapp_callee(vs)) by {
                                reveal_strlit("");
                            }
                        }
                        if !contract_pure_call_head(callee) {
                            let m1 = concat_str(
                                "contract expression is not pure: disallowed callee ",
                                debug_str(callee).as_str(),
                            );
                            out.push((ptr.clone(), m1));
                        }
                        let ghost mid = pairs_view(out@);
                        if items.len() > 3 {
                            collect_impurity_from(expr, items, 3, out);
                        }
                        proof {
                            let own = if contract_pure_head(callee@) {
                                Seq::empty()
                            } else {
                                seq![(ptr@, impure_prefix() + "disallowed callee "@ + spec_debug_str(callee@))]
                            };
                            assert(impure_prefix() + "disallowed callee "@ =~= "contract expression is not pure: disallowed callee "@) by {
                                reveal_strlit("contract expression is not pure: ");
                                reveal_strlit("disallowed callee ");
                                reveal_strlit("contract expression is not pure: disallowed callee ");
                            }
                            assert(mid =~= o + own);
                            if items@.len() <= 3 {
                                assert(pairs_view(out@) =~= o + own + Seq::<(Seq<char>, Seq<char>)>::empty());
                            }
                            assert(pairs_view(out@) =~= o + impurity(expr@));
                        }
                    } else if str_eq(h, "unsafe") || str_eq(h, "set") || str_eq(h, "set0") || str_eq(
                        h,
                        "for",
                    ) || str_eq(h, "return") || str_eq(h, "try") {
                        let m1 = concat_str(
                            "contract expression is not pure: disallowed form ",
                            debug_str(h).as_str(),
                        );
                        out.push((ptr.clone(), m1));
                        proof {
                            assert(impure_prefix() + "disallowed form "@ =~= "contract expression is not pure: disallowed form "@) by {
                                reveal_strlit("contract expression is not pure: ");
                                reveal_strlit("disallowed form ");
                                reveal_strlit("contract expression is not pure: disallowed form ");
                            }
                            assert(pairs_view(out@) =~= o + impurity(expr@));
                        }
                    } else {
                        if !contract_pure_call_head(h) {
                            let m1 = concat_str(
                                "contract expression is not pure: disallowed call ",
                                debug_str(h).as_str(),
                            );
                            out.push((ptr.clone(), m1));
                        }
                        let ghost mid = pairs_view(out@);
                        collect_impurity_from(expr, items, 1, out);
                        proof {
                            let own = if contract_pure_head(h@) {
                                Seq::empty()
                            } else {
                                seq![(ptr@, impure_prefix() + "disallowed call "@ + spec_debug_str(h@))]
                            };
                            assert(impure_prefix() + "disallowed call "@ =~= "contract expression is not pure: disallowed call "@) by {
                                reveal_strlit("contract expression is not pure: ");
                                reveal_strlit("disallowed call ");
                                reveal_strlit("contract expression is not pure: disallowed call ");
                            }
                            assert(mid =~= o + own);
                            assert(pairs_view(out@) =~= o + impurity(expr@));
                        }
                    }
                },
            }
        },
        _ => {
            assert(o + Seq::<(Seq<char>, Seq<char>)>::empty() =~= o);
        },
    }
}

/// Types a contract witness may have.
pub open spec fn witness_ty_allowed(t: TyT) -> bool {
    match t {
        TyT::Named(s) => s == "i32"@ || s == "bytes"@ || s == "bytes_view"@ || seq_starts_with(
            s,
            "result_"@,
        ),
        _ => false,
    }
}

pub fn contract_witness_ty_allowed(tt: &TyTerm) -> (r: bool)
    ensures
        r == witness_ty_allowed(tt@),
{
    match tt {
        TyTerm::Named(s) => str_eq(s.as_str(), "i32") || str_eq(s.as_str(), "bytes") || str_eq(
            s.as_str(),
            "bytes_view",
        ) || str_starts_with(s.as_str(), "result_"),
        _ => false,
    }
}

/// A one-word rendering of a type term for messages.
pub open spec fn ty_brief(t: TyT) -> Seq<char> {
    match t {
        TyT::Named(s) => s,
        TyT::Never => "never"@,
        TyT::TParam(n) => n,
        TyT::Meta(id) => "?"@ + dec(id as nat),
        TyT::App(h, _) => h,
    }
}

pub fn contract_ty_brief(tt: &TyTerm) -> (r: String)
    ensures
        r@ == ty_brief(tt@),
{
    match tt {
        TyTerm::Named(s) => s.clone(),
        TyTerm::Never => "never".to_string(),
        TyTerm::TParam(name) => name.clone(),
        TyTerm::Meta(id) => {
            let d = u64_to_dec(*id as u64);
            concat_str("?", d.as_str())
        },
        TyTerm::App { head, .. } => head.clone(),
    }
}

/// The note that lists what a contract clause may call.
pub open spec fn pure_heads_note() -> Seq<char> {
    "Allowed contract-pure heads/operators: +, -, *, /, %, =, !=, <, <=, >, >=, <u, <=u, >u, >=u, <<u, >>u, &, |, ^, &&, ||, bytes.lit, bytes.view_lit, i32.lit, bytes.view, bytes.subview, bytes.len, bytes.get_u8, bytes.eq, bytes.cmp_range, view.len, view.get_u8, view.slice, view.to_bytes; plus any `option_*` and `result_*`. Module calls are disallowed (only builtins/operators)."@
}

/// A contract diagnostic: an error of the type stage at `ptr`; an impurity
/// report (`X07-CONTRACT-0002`) carries the note listing what is allowed.
pub open spec fn contract_diag_v(code: Seq<char>, ptr: Seq<char>, message: Seq<char>) -> DiagV {
    DiagV {
        code,
        severity: Severity::Error,
        stage: Stage::Type,
        message,
        loc: Some(LocV::X07Ast(ptr)),
        notes: if code == "X07-CONTRACT-0002"@ {
            seq![pure_heads_note()]
        } else {
            Seq::empty()
        },
        related: Seq::empty(),
        data: Seq::empty(),
        quickfix: None,
    }
}

pub fn diag_contract_err(code: &str, ptr: String, message: String) -> (r: Diagnostic)
    ensures
        r@ == contract_diag_v(code@, ptr@, message@),
{
    let mut notes: Vec<String> = Vec::new();
    if str_eq(code, "X07-CONTRACT-0002") {
        notes.push(
            "Allowed contract-pure heads/operators: +, -, *, /, %, =, !=, <, <=, >, >=, <u, <=u, >u, >=u, <<u, >>u, &, |, ^, &&, ||, bytes.lit, bytes.view_lit, i32.lit, bytes.view, bytes.subview, bytes.len, bytes.get_u8, bytes.eq, bytes.cmp_range, view.len, view.get_u8, view.slice, view.to_bytes; plus any `option_*` and `result_*`. Module calls are disallowed (only builtins/operators).".to_string(),
        );
    }
    let r = Diagnostic {
        code: code.to_string(),
        severity: Severity::Error,
        stage: Stage::Type,
        message,
        loc: Some(Location::X07Ast { ptr }),
        notes,
        related: Vec::new(),
        data: Vec::new(),
        quickfix: None,
    };
    assert(r@.notes =~= contract_diag_v(code@, ptr@, message@).notes);
    assert(r@.related =~= Seq::<LocV>::empty());
    assert(r@.data =~= Seq::<(Seq<char>, crate::diagnostics::DV)>::empty());
    r
}

} // verus!

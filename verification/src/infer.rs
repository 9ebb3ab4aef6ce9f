//! Constraint generation for x07AST function bodies: the inference state,
//! its scopes, the constraints it records and how a failed constraint is
//! reported.

use vstd::prelude::*;
use crate::diagnostics::{
    type_error, type_error_v, DiagV, DiagValue, Diagnostic, DV, LocV, Location, Severity, Stage,
    data_view,
};
use crate::text::{chars_eq, chars_of, chars_slice, concat_str, debug_str, dec, spec_debug_str, seq_starts_with, str_eq, str_starts_with, u64_to_dec};
use crate::ast::{expr_ptr, head_ident, lemma_view_exprs, type_ref_from_expr, view_exprs, Expr, ExprV};
use crate::typecheck::{
    clone_opt_string, term_value, ty_term_to_value_like, type_ref_to_term,
    type_ref_to_term_with_subst, FnSigAst, FnSigV, TypecheckSigs,
};
use crate::unify::{clash_in, lemma_resolve_ext, resolve_t, unify, unify_error_ok, unify_post, Subst, TyInfoTerm, TyT, TyTerm, UnifyError};
use crate::suggest::{chars_le, chars_le_exec, lemma_chars_le_antisym, lemma_chars_le_total, lemma_chars_le_trans};

verus! {

/// Why a constraint was recorded.
#[derive(Debug)]
pub enum ConstraintOrigin {
    CallArg { callee: String, arg_index: usize, callee_decl_ptr: Option<String> },
    Return,
    IfCond,
    IfBranch,
    SetAssign { name: String },
    ContractExpr,
    ExprCheck,
}

/// The mathematical form of a constraint origin.
pub enum OriginV {
    CallArg(Seq<char>, usize, Option<Seq<char>>),
    Return,
    IfCond,
    IfBranch,
    SetAssign(Seq<char>),
    ContractExpr,
    ExprCheck,
}

impl View for ConstraintOrigin {
    type V = OriginV;

    open spec fn view(&self) -> OriginV {
        match self {
            ConstraintOrigin::CallArg { callee, arg_index, callee_decl_ptr } => OriginV::CallArg(
                callee@,
                *arg_index,
                match callee_decl_ptr {
                    Some(p) => Some(p@),
                    None => None,
                },
            ),
            ConstraintOrigin::Return => OriginV::Return,
            ConstraintOrigin::IfCond => OriginV::IfCond,
            ConstraintOrigin::IfBranch => OriginV::IfBranch,
            ConstraintOrigin::SetAssign { name } => OriginV::SetAssign(name@),
            ConstraintOrigin::ContractExpr => OriginV::ContractExpr,
            ConstraintOrigin::ExprCheck => OriginV::ExprCheck,
        }
    }
}

/// The sort key of an origin kind.
pub open spec fn origin_key(o: OriginV) -> Seq<char> {
    match o {
        OriginV::CallArg(..) => "call_arg"@,
        OriginV::Return => "return"@,
        OriginV::IfCond => "if_cond"@,
        OriginV::IfBranch => "if_branch"@,
        OriginV::SetAssign(..) => "set_assign"@,
        OriginV::ContractExpr => "contract_expr"@,
        OriginV::ExprCheck => "expr_check"@,
    }
}

/// Different kinds of origin have different keys.
pub proof fn lemma_origin_key_tells_kinds_apart(a: OriginV, b: OriginV)
    ensures
        origin_key(a) == origin_key(b) <==> (a is CallArg && b is CallArg) || (a is Return && b is Return) || (
        a is IfCond && b is IfCond) || (a is IfBranch && b is IfBranch) || (a is SetAssign && b is SetAssign) || (
        a is ContractExpr && b is ContractExpr) || (a is ExprCheck && b is ExprCheck),
{
    reveal_strlit("call_arg");
    reveal_strlit("return");
    reveal_strlit("if_cond");
    reveal_strlit("if_branch");
    reveal_strlit("set_assign");
    reveal_strlit("contract_expr");
    reveal_strlit("expr_check");
    assert("call_arg"@.len() == 8);
    assert("return"@.len() == 6);
    assert("if_cond"@.len() == 7);
    assert("if_branch"@.len() == 9);
    assert("set_assign"@.len() == 10);
    assert("contract_expr"@.len() == 13);
    assert("expr_check"@.len() == 10);
    assert("expr_check"@[0] == 'e' && "set_assign"@[0] == 's');
}

impl ConstraintOrigin {
    pub fn key(&self) -> (r: &'static str)
        ensures
            r@ == origin_key(self@),
    {
        match self {
            ConstraintOrigin::CallArg { .. } => "call_arg",
            ConstraintOrigin::Return => "return",
            ConstraintOrigin::IfCond => "if_cond",
            ConstraintOrigin::IfBranch => "if_branch",
            ConstraintOrigin::SetAssign { .. } => "set_assign",
            ConstraintOrigin::ContractExpr => "contract_expr",
            ConstraintOrigin::ExprCheck => "expr_check",
        }
    }
}

/// `lhs` must equal `rhs`; `blame_ptr` is where a failure is reported.
#[derive(Debug)]
pub struct Constraint {
    pub lhs: TyTerm,
    pub rhs: TyTerm,
    pub blame_ptr: String,
    pub origin: ConstraintOrigin,
}

pub struct ConstraintV {
    pub lhs: TyT,
    pub rhs: TyT,
    pub blame: Seq<char>,
    pub origin: OriginV,
}

impl View for Constraint {
    type V = ConstraintV;

    open spec fn view(&self) -> ConstraintV {
        ConstraintV {
            lhs: self.lhs@,
            rhs: self.rhs@,
            blame: self.blame_ptr@,
            origin: self.origin@,
        }
    }
}

/// A call of a generic function whose type arguments are left to inference:
/// `meta_ids[i]` stands for `type_params[i]`.
#[derive(Debug)]
pub struct PendingImplicitTapp {
    pub call_ptr: String,
    pub callee: String,
    pub type_params: Vec<String>,
    pub meta_ids: Vec<u32>,
}

/// The diagnostic reporting that constraint `c` failed with the clash
/// `lhs` / `rhs` for `reason`.
pub open spec fn unify_diag_v(c: ConstraintV, lhs: TyT, rhs: TyT, reason: Seq<char>) -> DiagV {
    match c.origin {
        OriginV::CallArg(callee, idx, decl) => DiagV {
            code: "X07-TYPE-CALL-0002"@,
            severity: Severity::Error,
            stage: Stage::Type,
            message: "call arg type mismatch for "@ + spec_debug_str(callee) + " (arg "@ + dec(
                idx as nat,
            ) + ")"@,
            loc: Some(LocV::X07Ast(c.blame)),
            notes: Seq::empty(),
            related: match decl {
                Some(p) => if p.len() > 0 {
                    seq![LocV::X07Ast(p)]
                } else {
                    Seq::empty()
                },
                None => Seq::empty(),
            },
            data: seq![
                ("arg_index"@, DV::Int(idx as int)),
                ("callee"@, DV::Str(callee)),
                ("expected"@, term_value(rhs)),
                ("got"@, term_value(lhs)),
            ],
            quickfix: None,
        },
        OriginV::Return => type_error_v(
            "X07-TYPE-RET-0001"@,
            "return type mismatch"@,
            c.blame,
            seq![("expected"@, term_value(rhs)), ("got"@, term_value(lhs))],
        ),
        OriginV::IfCond => type_error_v(
            "X07-TYPE-IF-0001"@,
            "if condition must be i32"@,
            c.blame,
            seq![("got"@, term_value(lhs))],
        ),
        OriginV::IfBranch => type_error_v(
            "X07-TYPE-IF-0002"@,
            "if branches mismatch"@,
            c.blame,
            seq![("else"@, term_value(rhs)), ("then"@, term_value(lhs))],
        ),
        OriginV::SetAssign(name) => type_error_v(
            "X07-TYPE-SET-0002"@,
            "assignment mismatch for "@ + spec_debug_str(name),
            c.blame,
            seq![
                ("expected"@, term_value(rhs)),
                ("got"@, term_value(lhs)),
                ("local"@, DV::Str(name)),
            ],
        ),
        OriginV::ExprCheck => type_error_v(
            "X07-TYPE-UNIFY-0001"@,
            "unification failure"@,
            c.blame,
            seq![
                ("lhs"@, term_value(lhs)),
                ("reason"@, DV::Str(reason)),
                ("rhs"@, term_value(rhs)),
            ],
        ),
        OriginV::ContractExpr => type_error_v(
            "X07-CONTRACT-0001"@,
            "contract clause must typecheck to i32"@,
            c.blame,
            seq![("expected"@, term_value(rhs)), ("got"@, term_value(lhs))],
        ),
    }
}

/// A failed constraint is reported as a type error at its blame pointer,
/// with a code of its own for each kind of origin, and with the type it got
/// (and, but for an `if` condition, the type it wanted) among its data.
pub proof fn lemma_unify_diag_shape(c: ConstraintV, c2: ConstraintV, lhs: TyT, rhs: TyT, reason: Seq<char>)
    ensures
        ({
            let d = unify_diag_v(c, lhs, rhs, reason);
            &&& d.severity == Severity::Error && d.stage == Stage::Type
            &&& d.loc == Some(LocV::X07Ast(c.blame))
            &&& exists|k: int| 0 <= k < d.data.len() && (#[trigger] d.data[k]).1 == term_value(lhs)
            &&& !(c.origin is IfCond) ==> exists|k: int| 0 <= k < d.data.len() && (#[trigger] d.data[k]).1 == term_value(rhs)
            &&& origin_key(c.origin) != origin_key(c2.origin) ==> d.code != unify_diag_v(c2, lhs, rhs, reason).code
        }),
{
    reveal_strlit("X07-TYPE-CALL-0002");
    reveal_strlit("X07-TYPE-RET-0001");
    reveal_strlit("X07-TYPE-IF-0001");
    reveal_strlit("X07-TYPE-IF-0002");
    reveal_strlit("X07-TYPE-SET-0002");
    reveal_strlit("X07-TYPE-UNIFY-0001");
    reveal_strlit("X07-CONTRACT-0001");
    assert("X07-TYPE-CALL-0002"@.len() == 18);
    assert("X07-TYPE-RET-0001"@.len() == 17);
    assert("X07-TYPE-IF-0001"@.len() == 16);
    assert("X07-TYPE-IF-0002"@.len() == 16);
    assert("X07-TYPE-SET-0002"@.len() == 17);
    assert("X07-TYPE-UNIFY-0001"@.len() == 19);
    assert("X07-CONTRACT-0001"@.len() == 17);
    assert("X07-TYPE-RET-0001"@[9] == 'R' && "X07-TYPE-SET-0002"@[9] == 'S');
    assert("X07-TYPE-IF-0001"@[15] == '1' && "X07-TYPE-IF-0002"@[15] == '2');
    assert("X07-CONTRACT-0001"@[4] == 'C' && "X07-TYPE-RET-0001"@[4] == 'T');
    assert("X07-CONTRACT-0001"@[4] == 'C' && "X07-TYPE-SET-0002"@[4] == 'T');
    let d = unify_diag_v(c, lhs, rhs, reason);
    match c.origin {
        OriginV::CallArg(..) => {
            assert(d.data[3].1 == term_value(lhs));
            assert(d.data[2].1 == term_value(rhs));
        },
        OriginV::Return => {
            assert(d.data[1].1 == term_value(lhs));
            assert(d.data[0].1 == term_value(rhs));
        },
        OriginV::IfCond => {
            assert(d.data[0].1 == term_value(lhs));
        },
        OriginV::IfBranch => {
            assert(d.data[1].1 == term_value(lhs));
            assert(d.data[0].1 == term_value(rhs));
        },
        OriginV::SetAssign(..) => {
            assert(d.data[1].1 == term_value(lhs));
            assert(d.data[0].1 == term_value(rhs));
        },
        OriginV::ExprCheck => {
            assert(d.data[0].1 == term_value(lhs));
            assert(d.data[2].1 == term_value(rhs));
        },
        OriginV::ContractExpr => {
            assert(d.data[1].1 == term_value(lhs));
            assert(d.data[0].1 == term_value(rhs));
        },
    }
}

pub fn diag_for_unify_error(c: &Constraint, err: &UnifyError) -> (r: Diagnostic)
    ensures
        r@ == unify_diag_v(c@, err.lhs@, err.rhs@, err.reason@),
{
    let ptr = c.blame_ptr.clone();
    match &c.origin {
        ConstraintOrigin::CallArg { callee, arg_index, callee_decl_ptr } => {
            let data = vec![
                ("arg_index".to_string(), DiagValue::UInt(*arg_index as u64)),
                ("callee".to_string(), DiagValue::Str(callee.clone())),
                ("expected".to_string(), ty_term_to_value_like(&err.rhs)),
                ("got".to_string(), ty_term_to_value_like(&err.lhs)),
            ];
            let mut related: Vec<Location> = Vec::new();
            match callee_decl_ptr {
                Some(p) => {
                    if p.as_str().unicode_len() > 0 {
                        related.push(Location::X07Ast { ptr: p.clone() });
                    }
                },
                None => {},
            }
            let m1 = concat_str("call arg type mismatch for ", debug_str(callee.as_str()).as_str());
            let m2 = concat_str(m1.as_str(), " (arg ");
            let m3 = concat_str(m2.as_str(), u64_to_dec(*arg_index as u64).as_str());
            let message = concat_str(m3.as_str(), ")");
            let r = Diagnostic {
                code: "X07-TYPE-CALL-0002".to_string(),
                severity: Severity::Error,
                stage: Stage::Type,
                message,
                loc: Some(Location::X07Ast { ptr }),
                notes: Vec::new(),
                related,
                data,
                quickfix: None,
            };
            assert(r@.notes =~= Seq::<Seq<char>>::empty());
            assert(r@.related =~= unify_diag_v(c@, err.lhs@, err.rhs@, err.reason@).related);
            assert(r@.data =~= unify_diag_v(c@, err.lhs@, err.rhs@, err.reason@).data);
            r
        },
        ConstraintOrigin::Return => {
            let data = vec![
                ("expected".to_string(), ty_term_to_value_like(&err.rhs)),
                ("got".to_string(), ty_term_to_value_like(&err.lhs)),
            ];
            assert(data_view(data@) =~= seq![("expected"@, term_value(err.rhs@)), ("got"@, term_value(err.lhs@))]);
            type_error("X07-TYPE-RET-0001", "return type mismatch".to_string(), ptr, data)
        },
        ConstraintOrigin::IfCond => {
            let data = vec![("got".to_string(), ty_term_to_value_like(&err.lhs))];
            assert(data_view(data@) =~= seq![("got"@, term_value(err.lhs@))]);
            type_error("X07-TYPE-IF-0001", "if condition must be i32".to_string(), ptr, data)
        },
        ConstraintOrigin::IfBranch => {
            let data = vec![
                ("else".to_string(), ty_term_to_value_like(&err.rhs)),
                ("then".to_string(), ty_term_to_value_like(&err.lhs)),
            ];
            assert(data_view(data@) =~= seq![("else"@, term_value(err.rhs@)), ("then"@, term_value(err.lhs@))]);
            type_error("X07-TYPE-IF-0002", "if branches mismatch".to_string(), ptr, data)
        },
        ConstraintOrigin::SetAssign { name } => {
            let data = vec![
                ("expected".to_string(), ty_term_to_value_like(&err.rhs)),
                ("got".to_string(), ty_term_to_value_like(&err.lhs)),
                ("local".to_string(), DiagValue::Str(name.clone())),
            ];
            assert(data_view(data@) =~= seq![
                ("expected"@, term_value(err.rhs@)),
                ("got"@, term_value(err.lhs@)),
                ("local"@, DV::Str(name@)),
            ]);
            let message = concat_str("assignment mismatch for ", debug_str(name.as_str()).as_str());
            type_error("X07-TYPE-SET-0002", message, ptr, data)
        },
        ConstraintOrigin::ExprCheck => {
            let data = vec![
                ("lhs".to_string(), ty_term_to_value_like(&err.lhs)),
                ("reason".to_string(), DiagValue::Str(err.reason.clone())),
                ("rhs".to_string(), ty_term_to_value_like(&err.rhs)),
            ];
            assert(data_view(data@) =~= seq![
                ("lhs"@, term_value(err.lhs@)),
                ("reason"@, DV::Str(err.reason@)),
                ("rhs"@, term_value(err.rhs@)),
            ]);
            type_error("X07-TYPE-UNIFY-0001", "unification failure".to_string(), ptr, data)
        },
        ConstraintOrigin::ContractExpr => {
            let data = vec![
                ("expected".to_string(), ty_term_to_value_like(&err.rhs)),
                ("got".to_string(), ty_term_to_value_like(&err.lhs)),
            ];
            assert(data_view(data@) =~= seq![("expected"@, term_value(err.rhs@)), ("got"@, term_value(err.lhs@))]);
            type_error(
                "X07-CONTRACT-0001",
                "contract clause must typecheck to i32".to_string(),
                ptr,
                data,
            )
        },
    }
}

/// The binding of `name` in one scope: its last entry.
pub open spec fn scope_find(scope: Seq<(String, TyInfoTerm)>, name: Seq<char>) -> Option<TyInfoTerm>
    decreases scope.len(),
{
    if scope.len() == 0 {
        None
    } else if scope.last().0@ == name {
        Some(scope.last().1)
    } else {
        scope_find(scope.drop_last(), name)
    }
}

/// The binding of `name` in a stack of scopes, innermost first.
pub open spec fn env_find(stack: Seq<Vec<(String, TyInfoTerm)>>, name: Seq<char>) -> Option<
    TyInfoTerm,
>
    decreases stack.len(),
{
    if stack.len() == 0 {
        None
    } else {
        match scope_find(stack.last()@, name) {
            Some(v) => Some(v),
            None => env_find(stack.drop_last(), name),
        }
    }
}

/// Two type infos carry the same type, brand and view flag.
pub open spec fn info_same(a: TyInfoTerm, b: TyInfoTerm) -> bool {
    a.ty@ == b.ty@ && a.brand == b.brand && a.view_full == b.view_full
}

/// `name` is a dotted name whose part before the first `.` is `module`.
pub open spec fn callee_in_module(name: Seq<char>, module: Seq<char>) -> bool {
    exists|i: int|
        0 <= i < name.len() && name[i] == '.' && (forall|k: int| 0 <= k < i ==> name[k] != '.')
            && #[trigger] name.take(i) == module
}

/// `a` is a prefix of `b`.
pub open spec fn is_prefix<T>(a: Seq<T>, b: Seq<T>) -> bool {
    a.len() <= b.len() && b.take(a.len() as int) == a
}

pub proof fn lemma_prefix_refl<T>(a: Seq<T>)
    ensures
        is_prefix(a, a),
{
    assert(a.take(a.len() as int) =~= a);
}

pub proof fn lemma_prefix_push<T>(a: Seq<T>, x: T)
    ensures
        is_prefix(a, a.push(x)),
{
    assert(a.push(x).take(a.len() as int) =~= a);
}

pub proof fn lemma_prefix_trans<T>(a: Seq<T>, b: Seq<T>, c: Seq<T>)
    requires
        is_prefix(a, b),
        is_prefix(b, c),
    ensures
        is_prefix(a, c),
{
    assert(c.take(a.len() as int) =~= b.take(a.len() as int));
}

/// The state of inference over one body: the scopes, the recorded
/// constraints, the substitution they solve to, the diagnostics so far and
/// the pending implicit type applications.
pub struct InferState {
    pub module_id: String,
    pub fn_ret: TyTerm,
    pub meta_counter: u32,
    pub env_stack: Vec<Vec<(String, TyInfoTerm)>>,
    pub constraints: Vec<Constraint>,
    pub subst: Subst,
    pub diagnostics: Vec<Diagnostic>,
    pub pending_tapp: Vec<PendingImplicitTapp>,
}

impl InferState {
    /// The substitution is acyclic and there is a current scope.
    pub open spec fn wf(&self) -> bool {
        self.subst.wf() && self.env_stack.len() >= 1
    }

    /// `next` is `prev` after generating constraints: fixed fields kept, the
    /// recorded lists only extended, every new diagnostic a type error, the
    /// outer scopes kept and the current scope only extended.
    pub open spec fn extends(prev: InferState, next: InferState) -> bool {
        &&& next.wf()
        &&& next.module_id@ == prev.module_id@
        &&& next.fn_ret@ == prev.fn_ret@
        &&& next.subst@ == prev.subst@
        &&& prev.meta_counter <= next.meta_counter
        &&& is_prefix(prev.constraints@, next.constraints@)
        &&& is_prefix(prev.diagnostics@, next.diagnostics@)
        &&& is_prefix(prev.pending_tapp@, next.pending_tapp@)
        &&& forall|i: int|
            prev.diagnostics.len() <= i < next.diagnostics.len() ==> {
                &&& (#[trigger] next.diagnostics@[i])@.severity == Severity::Error
                &&& next.diagnostics@[i]@.stage == Stage::Type
            }
        &&& next.env_stack.len() == prev.env_stack.len()
        &&& forall|i: int|
            0 <= i < prev.env_stack.len() - 1 ==> #[trigger] next.env_stack@[i] == prev.env_stack@[i]
        &&& is_prefix(prev.env_stack@.last()@, next.env_stack@.last()@)
    }

    pub fn new(module_id: &str, fn_ret: TyTerm) -> (r: Self)
        ensures
            r.wf(),
            r.module_id@ == module_id@,
            r.fn_ret@ == fn_ret@,
            r.meta_counter == 0,
            r.constraints@.len() == 0,
            r.diagnostics@.len() == 0,
            r.pending_tapp@.len() == 0,
            r.subst@ == Map::<u32, TyT>::empty(),
            r.env_stack@.len() == 1,
            r.env_stack@[0]@.len() == 1,
            r.env_stack@[0]@[0].0@ == "input"@,
            r.env_stack@[0]@[0].1.ty@ == TyT::Named("bytes_view"@),
            r.env_stack@[0]@[0].1.brand is None,
            !r.env_stack@[0]@[0].1.view_full,
    {
        let input = TyInfoTerm::unbranded(TyTerm::Named("bytes_view".to_string()));
        let scope = vec![("input".to_string(), input)];
        InferState {
            module_id: module_id.to_string(),
            fn_ret,
            meta_counter: 0,
            env_stack: vec![scope],
            constraints: Vec::new(),
            subst: Subst::default(),
            diagnostics: Vec::new(),
            pending_tapp: Vec::new(),
        }
    }

    /// An unknown callee is reported only when it names this module.
    pub fn should_diag_unknown_callee(&self, callee: &str) -> (r: bool)
        ensures
            r == callee_in_module(callee@, self.module_id@),
    {
        let cv = chars_of(callee);
        let mut i: usize = 0;
        while i < cv.len()
            invariant
                cv@ == callee@,
                i <= cv.len(),
                forall|k: int| 0 <= k < i ==> cv@[k] != '.',
            decreases cv.len() - i,
        {
            if cv[i] == '.' {
                let prefix = chars_slice(&cv, 0, i);
                let mv = chars_of(self.module_id.as_str());
                let r = chars_eq(&prefix, &mv);
                proof {
                    assert(prefix@ =~= callee@.take(i as int));
                    if r {
                        assert(callee@.take(i as int) == self.module_id@);
                    } else {
                        if callee_in_module(callee@, self.module_id@) {
                            let j = choose|j: int|
                                0 <= j < callee@.len() && callee@[j] == '.' && (forall|k: int|
                                    0 <= k < j ==> callee@[k] != '.') && #[trigger] callee@.take(j)
                                    == self.module_id@;
                            if j < i {
                                assert(cv@[j] != '.');
                            } else if i < j {
                                assert(callee@[i as int] != '.');
                            }
                        }
                    }
                }
                return r;
            }
            i = i + 1;
        }
        false
    }

    /// A new metavariable, numbered by the counter (which saturates).
    pub fn fresh_meta(&mut self) -> (r: TyTerm)
        requires
            old(self).wf(),
        ensures
            InferState::extends(*old(self), *final(self)),
            r@ == TyT::Meta(old(self).meta_counter),
            final(self).meta_counter == old(self).meta_counter.saturating_add(1),
            final(self).module_id == old(self).module_id,
            final(self).fn_ret == old(self).fn_ret,
            final(self).env_stack == old(self).env_stack,
            final(self).constraints == old(self).constraints,
            final(self).subst == old(self).subst,
            final(self).diagnostics == old(self).diagnostics,
            final(self).pending_tapp == old(self).pending_tapp,
    {
        let ghost s0 = *self;
        let id = self.meta_counter;
        self.meta_counter = self.meta_counter.saturating_add(1);
        proof {
            lemma_ext_same_lists(s0, *self);
        }
        TyTerm::Meta(id)
    }

    pub fn push_scope(&mut self)
        ensures
            final(self).env_stack@.len() == old(self).env_stack@.len() + 1,
            final(self).env_stack@.drop_last() == old(self).env_stack@,
            final(self).env_stack@.last()@.len() == 0,
            final(self).module_id == old(self).module_id,
            final(self).fn_ret == old(self).fn_ret,
            final(self).meta_counter == old(self).meta_counter,
            final(self).constraints == old(self).constraints,
            final(self).subst == old(self).subst,
            final(self).diagnostics == old(self).diagnostics,
            final(self).pending_tapp == old(self).pending_tapp,
    {
        self.env_stack.push(Vec::new());
    }

    pub fn pop_scope(&mut self)
        ensures
            old(self).env_stack.len() > 0 ==> final(self).env_stack@ == old(self).env_stack@.drop_last(),
            old(self).env_stack.len() == 0 ==> final(self).env_stack@ == old(self).env_stack@,
            final(self).module_id == old(self).module_id,
            final(self).fn_ret == old(self).fn_ret,
            final(self).meta_counter == old(self).meta_counter,
            final(self).constraints == old(self).constraints,
            final(self).subst == old(self).subst,
            final(self).diagnostics == old(self).diagnostics,
            final(self).pending_tapp == old(self).pending_tapp,
    {
        let _ = self.env_stack.pop();
    }

    /// Binds `name` in the current scope.
    pub fn bind(&mut self, name: String, ty: TyInfoTerm)
        requires
            old(self).wf(),
        ensures
            InferState::extends(*old(self), *final(self)),
            old(self).env_stack.len() > 0 ==> final(self).env_stack@ == old(self).env_stack@.drop_last().push(
                final(self).env_stack@.last(),
            ) && final(self).env_stack@.last()@ == old(self).env_stack@.last()@.push((name, ty)),
            old(self).env_stack.len() == 0 ==> final(self).env_stack@ == old(self).env_stack@,
            final(self).module_id == old(self).module_id,
            final(self).fn_ret == old(self).fn_ret,
            final(self).meta_counter == old(self).meta_counter,
            final(self).constraints == old(self).constraints,
            final(self).subst == old(self).subst,
            final(self).diagnostics == old(self).diagnostics,
            final(self).pending_tapp == old(self).pending_tapp,
    {
        let ghost s0 = *self;
        match self.env_stack.pop() {
            Some(mut scope) => {
                scope.push((name, ty));
                self.env_stack.push(scope);
            },
            None => {},
        }
        proof {
            lemma_prefix_refl(s0.constraints@);
            lemma_prefix_refl(s0.diagnostics@);
            lemma_prefix_refl(s0.pending_tapp@);
            lemma_prefix_push(s0.env_stack@.last()@, (name, ty));
            assert(self.env_stack@.drop_last() == s0.env_stack@.drop_last());
            assert forall|i: int| 0 <= i < s0.env_stack.len() - 1 implies #[trigger] self.env_stack@[i]
                == s0.env_stack@[i] by {
                assert(self.env_stack@.drop_last()[i] == self.env_stack@[i]);
                assert(s0.env_stack@.drop_last()[i] == s0.env_stack@[i]);
            }
        }
    }

    /// The innermost binding of `name`.
    pub fn lookup(&self, name: &str) -> (r: Option<TyInfoTerm>)
        ensures
            match (r, env_find(self.env_stack@, name@)) {
                (Some(a), Some(b)) => info_same(a, b),
                (None, None) => true,
                _ => false,
            },
    {
        let mut si: usize = self.env_stack.len();
        assert(self.env_stack@.take(si as int) =~= self.env_stack@);
        while si > 0
            invariant
                si <= self.env_stack.len(),
                env_find(self.env_stack@, name@) == env_find(self.env_stack@.take(si as int), name@),
            decreases si,
        {
            let scope = &self.env_stack[si - 1];
            let ghost st = self.env_stack@.take(si as int);
            assert(st.last() == scope);
            assert(st.drop_last() =~= self.env_stack@.take(si - 1));
            let mut j: usize = scope.len();
            assert(scope@.take(j as int) =~= scope@);
            while j > 0
                invariant
                    0 < si <= self.env_stack.len(),
                    *scope == self.env_stack@[si - 1],
                    st == self.env_stack@.take(si as int),
                    st.last() == *scope,
                    env_find(self.env_stack@, name@) == env_find(st, name@),
                    j <= scope.len(),
                    scope_find(scope@, name@) == scope_find(scope@.take(j as int), name@),
                decreases j,
            {
                let ghost sc = scope@.take(j as int);
                assert(sc.last() == scope@[j - 1]);
                assert(sc.drop_last() =~= scope@.take(j - 1));
                if str_eq(scope[j - 1].0.as_str(), name) {
                    assert(scope_find(scope@, name@) == Some(scope@[j - 1].1));
                    assert(env_find(st, name@) == Some(scope@[j - 1].1));
                    return Some(scope[j - 1].1.clone());
                }
                j = j - 1;
            }
            assert(scope@.take(0) =~= Seq::<(String, TyInfoTerm)>::empty());
            assert(env_find(st, name@) == env_find(st.drop_last(), name@));
            si = si - 1;
        }
        None
    }

    pub fn add_constraint(&mut self, lhs: TyTerm, rhs: TyTerm, blame_ptr: String, origin: ConstraintOrigin)
        requires
            old(self).wf(),
        ensures
            InferState::extends(*old(self), *final(self)),
            final(self).constraints@ == old(self).constraints@.push(
                Constraint { lhs, rhs, blame_ptr, origin },
            ),
            final(self).module_id == old(self).module_id,
            final(self).fn_ret == old(self).fn_ret,
            final(self).meta_counter == old(self).meta_counter,
            final(self).env_stack == old(self).env_stack,
            final(self).subst == old(self).subst,
            final(self).diagnostics == old(self).diagnostics,
            final(self).pending_tapp == old(self).pending_tapp,
    {
        let ghost s0 = *self;
        self.constraints.push(Constraint { lhs, rhs, blame_ptr, origin });
        proof {
            lemma_prefix_push(s0.constraints@, Constraint { lhs, rhs, blame_ptr, origin });
            lemma_prefix_refl(s0.diagnostics@);
            lemma_prefix_refl(s0.pending_tapp@);
            lemma_prefix_refl(s0.env_stack@.last()@);
        }
    }

    /// Records a type-stage error.
    pub fn push_diag(&mut self, d: Diagnostic)
        requires
            old(self).wf(),
            d@.severity == Severity::Error,
            d@.stage == Stage::Type,
        ensures
            InferState::extends(*old(self), *final(self)),
            final(self).diagnostics@ == old(self).diagnostics@.push(d),
            final(self).meta_counter == old(self).meta_counter,
            final(self).env_stack == old(self).env_stack,
            final(self).constraints == old(self).constraints,
            final(self).pending_tapp == old(self).pending_tapp,
    {
        let ghost s0 = *self;
        self.diagnostics.push(d);
        proof {
            lemma_prefix_push(s0.diagnostics@, d);
            lemma_prefix_refl(s0.constraints@);
            lemma_prefix_refl(s0.pending_tapp@);
            lemma_prefix_refl(s0.env_stack@.last()@);
        }
    }
}


/// A step that changes no list and no scope keeps `extends`.
proof fn lemma_ext_same_lists(a: InferState, b: InferState)
    requires
        a.wf(),
        b.module_id == a.module_id,
        b.fn_ret == a.fn_ret,
        b.subst == a.subst,
        a.meta_counter <= b.meta_counter,
        b.env_stack == a.env_stack,
        b.constraints == a.constraints,
        b.diagnostics == a.diagnostics,
        b.pending_tapp == a.pending_tapp,
    ensures
        InferState::extends(a, b),
{
    lemma_prefix_refl(a.constraints@);
    lemma_prefix_refl(a.diagnostics@);
    lemma_prefix_refl(a.pending_tapp@);
    lemma_prefix_refl(a.env_stack@.last()@);
}

pub proof fn lemma_ext_refl(a: InferState)
    requires
        a.wf(),
    ensures
        InferState::extends(a, a),
{
    lemma_ext_same_lists(a, a);
}

pub proof fn lemma_ext_trans(a: InferState, b: InferState, c: InferState)
    requires
        InferState::extends(a, b),
        InferState::extends(b, c),
    ensures
        InferState::extends(a, c),
{
    lemma_prefix_trans(a.constraints@, b.constraints@, c.constraints@);
    lemma_prefix_trans(a.diagnostics@, b.diagnostics@, c.diagnostics@);
    lemma_prefix_trans(a.pending_tapp@, b.pending_tapp@, c.pending_tapp@);
    lemma_prefix_trans(a.env_stack@.last()@, b.env_stack@.last()@, c.env_stack@.last()@);
    assert forall|i: int| a.diagnostics.len() <= i < c.diagnostics.len() implies {
        &&& (#[trigger] c.diagnostics@[i])@.severity == Severity::Error
        &&& c.diagnostics@[i]@.stage == Stage::Type
    } by {
        if i < b.diagnostics.len() {
            assert(c.diagnostics@.take(b.diagnostics.len() as int)[i] == c.diagnostics@[i]);
        }
    }
}

/// A scope pushed, worked in and popped again leaves the scopes as they were.
pub proof fn lemma_ext_scope(a: InferState, pushed: InferState, inner: InferState, popped: InferState)
    requires
        a.wf(),
        pushed.env_stack@.len() == a.env_stack@.len() + 1,
        pushed.env_stack@.drop_last() == a.env_stack@,
        pushed.module_id == a.module_id,
        pushed.fn_ret == a.fn_ret,
        pushed.meta_counter == a.meta_counter,
        pushed.constraints == a.constraints,
        pushed.subst == a.subst,
        pushed.diagnostics == a.diagnostics,
        pushed.pending_tapp == a.pending_tapp,
        InferState::extends(pushed, inner),
        popped.env_stack@ == inner.env_stack@.drop_last(),
        popped.module_id == inner.module_id,
        popped.fn_ret == inner.fn_ret,
        popped.meta_counter == inner.meta_counter,
        popped.constraints == inner.constraints,
        popped.subst == inner.subst,
        popped.diagnostics == inner.diagnostics,
        popped.pending_tapp == inner.pending_tapp,
    ensures
        InferState::extends(a, popped),
        popped.env_stack@ == a.env_stack@,
{
    assert(popped.env_stack@ =~= a.env_stack@) by {
        assert forall|i: int| 0 <= i < a.env_stack@.len() implies popped.env_stack@[i]
            == a.env_stack@[i] by {
            assert(inner.env_stack@[i] == pushed.env_stack@[i]);
            assert(pushed.env_stack@.drop_last()[i] == pushed.env_stack@[i]);
            assert(inner.env_stack@.drop_last()[i] == inner.env_stack@[i]);
        }
    }
    lemma_prefix_refl(a.env_stack@.last()@);
    assert forall|i: int| a.diagnostics.len() <= i < popped.diagnostics.len() implies {
        &&& (#[trigger] popped.diagnostics@[i])@.severity == Severity::Error
        &&& popped.diagnostics@[i]@.stage == Stage::Type
    } by {
        assert(inner.diagnostics@[i] == popped.diagnostics@[i]);
    }
}


/// `unknown identifier` at an identifier.
pub open spec fn unknown_ident_v(name: Seq<char>, ptr: Seq<char>) -> DiagV {
    type_error_v("X07-TYPE-0001"@, "unknown identifier: "@ + spec_debug_str(name), ptr, Seq::empty())
}

pub fn unknown_ident_diag(name: &str, ptr: &str) -> (r: Diagnostic)
    ensures
        r@ == unknown_ident_v(name@, ptr@),
{
    let message = concat_str("unknown identifier: ", debug_str(name).as_str());
    let r = type_error("X07-TYPE-0001", message, ptr.to_string(), Vec::new());
    assert(r@.data =~= Seq::<(Seq<char>, DV)>::empty());
    r
}

/// `set`/`set0` of a local that is not in scope.
pub open spec fn unknown_local_v(form: Seq<char>, name: Seq<char>, ptr: Seq<char>) -> DiagV {
    type_error_v(
        "X07-TYPE-SET-0001"@,
        form + " of unknown local: "@ + spec_debug_str(name),
        ptr,
        seq![("local"@, DV::Str(name))],
    )
}

pub fn unknown_local_diag(form: &str, name: &str, ptr: &str) -> (r: Diagnostic)
    ensures
        r@ == unknown_local_v(form@, name@, ptr@),
{
    let m1 = concat_str(form, " of unknown local: ");
    let message = concat_str(m1.as_str(), debug_str(name).as_str());
    let data = vec![("local".to_string(), DiagValue::Str(name.to_string()))];
    assert(data_view(data@) =~= seq![("local"@, DV::Str(name@))]);
    type_error("X07-TYPE-SET-0001", message, ptr.to_string(), data)
}

/// A call of a function of this module that has no signature.
pub open spec fn unknown_callee_v(callee: Seq<char>, ptr: Seq<char>) -> DiagV {
    type_error_v(
        "X07-TYPE-CALL-0001"@,
        "unknown callee: "@ + spec_debug_str(callee),
        ptr,
        seq![("callee"@, DV::Str(callee))],
    )
}

pub fn unknown_callee_diag(callee: &str, ptr: &str) -> (r: Diagnostic)
    ensures
        r@ == unknown_callee_v(callee@, ptr@),
{
    let message = concat_str("unknown callee: ", debug_str(callee).as_str());
    let data = vec![("callee".to_string(), DiagValue::Str(callee.to_string()))];
    assert(data_view(data@) =~= seq![("callee"@, DV::Str(callee@))]);
    type_error("X07-TYPE-CALL-0001", message, ptr.to_string(), data)
}

/// Arity data: the callee and the wanted and given counts.
pub open spec fn arity_data(callee: Seq<char>, want: nat, got: nat) -> Seq<(Seq<char>, DV)> {
    seq![
        ("callee"@, DV::Str(callee)),
        ("got"@, DV::Int(got as int)),
        ("want"@, DV::Int(want as int)),
    ]
}

fn arity_data_exec(callee: &str, want: usize, got: usize) -> (r: Vec<(String, DiagValue)>)
    ensures
        data_view(r@) == arity_data(callee@, want as nat, got as nat),
{
    let r = vec![
        ("callee".to_string(), DiagValue::Str(callee.to_string())),
        ("got".to_string(), DiagValue::UInt(got as u64)),
        ("want".to_string(), DiagValue::UInt(want as u64)),
    ];
    assert(data_view(r@) =~= arity_data(callee@, want as nat, got as nat));
    r
}

/// A `tapp` with the wrong number of type arguments.
pub open spec fn tapp_arity_v(callee: Seq<char>, want: nat, got: nat, ptr: Seq<char>) -> DiagV {
    type_error_v(
        "X07-TYPE-CALL-0003"@,
        "tapp arity mismatch for "@ + spec_debug_str(callee) + ": expected "@ + dec(want)
            + " type args"@,
        ptr,
        arity_data(callee, want, got),
    )
}

pub fn tapp_arity_diag(callee: &str, want: usize, got: usize, ptr: &str) -> (r: Diagnostic)
    ensures
        r@ == tapp_arity_v(callee@, want as nat, got as nat, ptr@),
{
    let m1 = concat_str("tapp arity mismatch for ", debug_str(callee).as_str());
    let m2 = concat_str(m1.as_str(), ": expected ");
    let m3 = concat_str(m2.as_str(), u64_to_dec(want as u64).as_str());
    let message = concat_str(m3.as_str(), " type args");
    type_error("X07-TYPE-CALL-0003", message, ptr.to_string(), arity_data_exec(callee, want, got))
}

/// A call with the wrong number of arguments; `decl` (when not empty) points
/// at the callee's declaration.
pub open spec fn call_arity_v(
    callee: Seq<char>,
    want: nat,
    got: nat,
    ptr: Seq<char>,
    decl: Seq<char>,
) -> DiagV {
    DiagV {
        code: "X07-TYPE-CALL-0003"@,
        severity: Severity::Error,
        stage: Stage::Type,
        message: "arity mismatch for "@ + spec_debug_str(callee) + ": expected "@ + dec(want)
            + " args got "@ + dec(got),
        loc: Some(LocV::X07Ast(ptr)),
        notes: Seq::empty(),
        related: if decl.len() > 0 {
            seq![LocV::X07Ast(decl)]
        } else {
            Seq::empty()
        },
        data: arity_data(callee, want, got),
        quickfix: None,
    }
}

pub fn call_arity_diag(callee: &str, want: usize, got: usize, ptr: &str, decl: &str) -> (r:
    Diagnostic)
    ensures
        r@ == call_arity_v(callee@, want as nat, got as nat, ptr@, decl@),
{
    let mut related: Vec<Location> = Vec::new();
    if decl.unicode_len() > 0 {
        related.push(Location::X07Ast { ptr: decl.to_string() });
    }
    let m1 = concat_str("arity mismatch for ", debug_str(callee).as_str());
    let m2 = concat_str(m1.as_str(), ": expected ");
    let m3 = concat_str(m2.as_str(), u64_to_dec(want as u64).as_str());
    let m4 = concat_str(m3.as_str(), " args got ");
    let message = concat_str(m4.as_str(), u64_to_dec(got as u64).as_str());
    let r = Diagnostic {
        code: "X07-TYPE-CALL-0003".to_string(),
        severity: Severity::Error,
        stage: Stage::Type,
        message,
        loc: Some(Location::X07Ast { ptr: ptr.to_string() }),
        notes: Vec::new(),
        related,
        data: arity_data_exec(callee, want, got),
        quickfix: None,
    };
    assert(r@.notes =~= Seq::<Seq<char>>::empty());
    assert(r@.related =~= call_arity_v(callee@, want as nat, got as nat, ptr@, decl@).related);
    r
}


/// An item of a list expression is smaller than the list.
pub proof fn lemma_child(whole: ExprV, items: Seq<Expr>, i: int)
    requires
        whole matches ExprV::List(vs, _) && vs == view_exprs(items),
        0 <= i < items.len(),
    ensures
        decreases_to!(whole => items[i]@),
{
    lemma_view_exprs(items);
    let vs = view_exprs(items);
    assert(vs[i] == items[i]@);
    assert(decreases_to!(whole => whole->List_0));
    assert(decreases_to!(vs => vs[i]));
}

/// `e` is a list whose head is the identifier `tys`.
pub open spec fn is_tys_list(e: ExprV) -> bool {
    e matches ExprV::List(items, _) && head_ident(items) == Some("tys"@)
}

/// The items of a `["tys", ...]` list.
pub fn tys_items(e: &Expr) -> (r: Option<&Vec<Expr>>)
    ensures
        r is Some <==> is_tys_list(e@),
        r matches Some(v) ==> e@ == ExprV::List(view_exprs(v@), expr_ptr(e@)),
{
    match e {
        Expr::List { items, .. } => {
            if items.len() > 0 {
                match items[0].as_ident() {
                    Some(h) => {
                        if str_eq(h, "tys") {
                            proof {
                                lemma_view_exprs(items@);
                            }
                            return Some(items);
                        }
                    },
                    None => {},
                }
            }
            proof {
                lemma_view_exprs(items@);
            }
            None
        },
        _ => None,
    }
}

/// `cs` is `before` with one constraint more, `lhs` against `want`, blamed on
/// `ptr`, from `origin`.
pub open spec fn one_constraint_added(
    before: Seq<Constraint>,
    cs: Seq<Constraint>,
    lhs: TyT,
    want: TyT,
    ptr: Seq<char>,
    origin: OriginV,
) -> bool {
    &&& cs.len() == before.len() + 1
    &&& cs.drop_last() == before
    &&& cs.last()@ == ConstraintV { lhs, rhs: want, blame: ptr, origin }
}

/// The type inference gives an operand that needs no constraint of its own:
/// `i32` for a literal, `bytes_view` for `input`, the bound type of an
/// identifier in scope.
pub open spec fn operand_ty(stack: Seq<Vec<(String, TyInfoTerm)>>, e: ExprV) -> Option<TyT> {
    match e {
        ExprV::Int(_, _) => Some(TyT::Named("i32"@)),
        ExprV::Ident(n, _) => if n == "input"@ {
            Some(TyT::Named("bytes_view"@))
        } else {
            match env_find(stack, n) {
                Some(v) => Some(v.ty@),
                None => None,
            }
        },
        ExprV::List(_, _) => None,
    }
}

/// When `callee` is neither a byte literal form nor a known signature and
/// names this module, the next diagnostic after `before`'s is the
/// unknown-callee diagnostic at `ptr`.
pub open spec fn unknown_callee_reported(
    before: InferState,
    after: InferState,
    table: Map<Seq<char>, FnSigV>,
    callee: Seq<char>,
    ptr: Seq<char>,
) -> bool {
    callee != "bytes.lit"@ && callee != "bytes.view_lit"@ && !table.contains_key(callee) && callee_in_module(
        callee,
        before.module_id@,
    ) ==> after.diagnostics@.len() > before.diagnostics@.len() && after.diagnostics@[before.diagnostics@.len() as int]@
        == unknown_callee_v(callee, ptr)
}

/// A list head that `infer_expr` reads as a call rather than a form.
pub open spec fn call_head(h: Seq<char>) -> bool {
    &&& h != "begin"@ && h != "unsafe"@ && h != "let"@ && h != "set"@ && h != "set0"@ && h != "if"@
    &&& h != "for"@ && h != "return"@ && h != "try"@ && h != "tapp"@
    &&& !seq_starts_with(h, "ty."@)
}

/// Inferring a `bytes.lit` call reports nothing and at most checks `bytes`
/// against what is wanted.
pub open spec fn bytes_lit_inferred(
    before: InferState,
    after: InferState,
    want: Option<TyT>,
    ptr: Seq<char>,
) -> bool {
    &&& after.diagnostics == before.diagnostics
    &&& after.pending_tapp == before.pending_tapp
    &&& match want {
        Some(w) => one_constraint_added(
            before.constraints@,
            after.constraints@,
            TyT::Named("bytes"@),
            w,
            ptr,
            OriginV::ExprCheck,
        ),
        None => after.constraints == before.constraints,
    }
}

/// `bytes.lit` is read as a call.
proof fn lemma_bytes_lit_is_call()
    ensures
        call_head("bytes.lit"@),
{
    reveal_strlit("bytes.lit");
    reveal_strlit("begin");
    reveal_strlit("unsafe");
    reveal_strlit("let");
    reveal_strlit("set");
    reveal_strlit("set0");
    reveal_strlit("if");
    reveal_strlit("for");
    reveal_strlit("return");
    reveal_strlit("try");
    reveal_strlit("tapp");
    reveal_strlit("ty.");
    assert("bytes.lit"@.len() != "begin"@.len());
    assert("bytes.lit"@.len() != "unsafe"@.len());
    assert("bytes.lit"@.len() != "let"@.len());
    assert("bytes.lit"@.len() != "set"@.len());
    assert("bytes.lit"@.len() != "set0"@.len());
    assert("bytes.lit"@.len() != "if"@.len());
    assert("bytes.lit"@.len() != "for"@.len());
    assert("bytes.lit"@.len() != "return"@.len());
    assert("bytes.lit"@.len() != "try"@.len());
    assert("bytes.lit"@.len() != "tapp"@.len());
    assert("bytes.lit"@[0] != "ty."@[0]);
}

impl InferState {
    /// Infers `expr` against `want` and records that its type must be `want`
    /// (unless it diverges).
    pub fn check_expr(&mut self, sigs: &TypecheckSigs, expr: &Expr, want: &TyTerm, origin: ConstraintOrigin)
        requires
            old(self).wf(),
            sigs.wf(),
        ensures
            InferState::extends(*old(self), *final(self)),
            operand_ty(old(self).env_stack@, expr@) matches Some(t) ==> if t == TyT::Never {
                final(self).constraints == old(self).constraints
            } else {
                one_constraint_added(
                    old(self).constraints@,
                    final(self).constraints@,
                    t,
                    want@,
                    expr_ptr(expr@),
                    origin@,
                )
            },
        decreases expr@, 5nat,
    {
        let ghost s0 = *self;
        let got = self.infer_expr(sigs, expr, Some(want));
        match got.ty {
            TyTerm::Never => {},
            ty => {
                let ghost s1 = *self;
                self.add_constraint(ty, want.clone(), expr.ptr().to_string(), origin);
                proof {
                    lemma_ext_trans(s0, s1, *self);
                }
            },
        }
    }

    /// Infers a contract clause and records that it must have type `want`.
    pub fn check_contract_expr(&mut self, sigs: &TypecheckSigs, expr: &Expr, want: &TyTerm)
        requires
            old(self).wf(),
            sigs.wf(),
        ensures
            InferState::extends(*old(self), *final(self)),
            operand_ty(old(self).env_stack@, expr@) matches Some(t) ==> if t == TyT::Never {
                final(self).constraints == old(self).constraints
            } else {
                one_constraint_added(
                    old(self).constraints@,
                    final(self).constraints@,
                    t,
                    want@,
                    expr_ptr(expr@),
                    OriginV::ContractExpr,
                )
            },
        decreases expr@, 5nat,
    {
        let ghost s0 = *self;
        let got = self.infer_expr(sigs, expr, None);
        match got.ty {
            TyTerm::Never => {},
            ty => {
                let ghost s1 = *self;
                self.add_constraint(
                    ty,
                    want.clone(),
                    expr.ptr().to_string(),
                    ConstraintOrigin::ContractExpr,
                );
                proof {
                    lemma_ext_trans(s0, s1, *self);
                }
            },
        }
    }

    /// An unbranded fresh metavariable.
    fn fresh_info(&mut self) -> (r: TyInfoTerm)
        requires
            old(self).wf(),
        ensures
            InferState::extends(*old(self), *final(self)),
            r.ty@ == TyT::Meta(old(self).meta_counter),
            r.brand is None,
            final(self).diagnostics == old(self).diagnostics,
            final(self).constraints == old(self).constraints,
    {
        let m = self.fresh_meta();
        TyInfoTerm::unbranded(m)
    }

    /// Infers `items[lo..hi]`, ignoring their types.
    fn infer_items_range(&mut self, sigs: &TypecheckSigs, whole: &Expr, items: &Vec<Expr>, lo: usize, hi: usize)
        requires
            old(self).wf(),
            sigs.wf(),
            whole@ matches ExprV::List(vs, _) && vs == view_exprs(items@),
            lo <= hi <= items@.len(),
        ensures
            InferState::extends(*old(self), *final(self)),
        decreases whole@, 0nat,
    {
        let ghost s0 = *self;
        proof {
            lemma_ext_refl(s0);
        }
        let mut i = lo;
        while i < hi
            invariant
                lo <= i <= hi <= items@.len(),
                whole@ matches ExprV::List(vs, _) && vs == view_exprs(items@),
                sigs.wf(),
                self.wf(),
                InferState::extends(s0, *self),
            decreases hi - i,
        {
            proof {
                lemma_child(whole@, items@, i as int);
            }
            let ghost s1 = *self;
            let _ = self.infer_expr(sigs, &items[i], None);
            proof {
                lemma_ext_trans(s0, s1, *self);
            }
            i = i + 1;
        }
    }

    /// Infers the type of `expr`, given the type the context wants if any.
    pub fn infer_expr(&mut self, sigs: &TypecheckSigs, expr: &Expr, want: Option<&TyTerm>) -> (r: TyInfoTerm)
        requires
            old(self).wf(),
            sigs.wf(),
        ensures
            InferState::extends(*old(self), *final(self)),
            expr@ is Int ==> r.ty@ == TyT::Named("i32"@) && r.brand is None,
            expr@ matches ExprV::Ident(n, p) ==> if n == "input"@ {
                r.ty@ == TyT::Named("bytes_view"@) && r.brand is None
            } else {
                match env_find(old(self).env_stack@, n) {
                    Some(v) => info_same(r, v) && final(self).diagnostics@ == old(
                        self,
                    ).diagnostics@,
                    None => r.ty@ == TyT::Meta(old(self).meta_counter)
                        && final(self).diagnostics@.len() == old(self).diagnostics@.len() + 1
                        && final(self).diagnostics@.last()@ == unknown_ident_v(n, p),
                }
            },
            !(expr@ is List) ==> final(self).constraints == old(self).constraints,
            expr@ matches ExprV::List(items, p) ==> (head_ident(items) matches Some(h) ==> (call_head(h)
                ==> unknown_callee_reported(*old(self), *final(self), sigs.table(), h, p))),
            expr@ matches ExprV::List(items, p) ==> (head_ident(items) == Some("bytes.lit"@) ==> bytes_lit_inferred(
                *old(self),
                *final(self),
                match want {
                    Some(w) => Some(w@),
                    None => None,
                },
                p,
            )),
        decreases expr@, 4nat,
    {
        let ghost s0 = *self;
        match expr {
            Expr::Int { .. } => {
                proof {
                    lemma_ext_refl(s0);
                }
                TyInfoTerm::unbranded(TyTerm::Named("i32".to_string()))
            },
            Expr::Ident { name, ptr } => {
                if str_eq(name.as_str(), "input") {
                    proof {
                        lemma_ext_refl(s0);
                    }
                    return TyInfoTerm::unbranded(TyTerm::Named("bytes_view".to_string()));
                }
                match self.lookup(name.as_str()) {
                    Some(v) => {
                        proof {
                            lemma_ext_refl(s0);
                        }
                        v
                    },
                    None => {
                        let d = unknown_ident_diag(name.as_str(), ptr.as_str());
                        self.push_diag(d);
                        let ghost s1 = *self;
                        let r = self.fresh_info();
                        proof {
                            lemma_ext_trans(s0, s1, *self);
                        }
                        r
                    },
                }
            },
            Expr::List { items, .. } => {
                proof {
                    lemma_view_exprs(items@);
                    lemma_bytes_lit_is_call();
                }
                let head = if items.len() > 0 {
                    items[0].as_ident()
                } else {
                    None
                };
                match head {
                    None => {
                        self.infer_items_range(sigs, expr, items, 0, items.len());
                        let ghost s1 = *self;
                        let r = self.fresh_info();
                        proof {
                            lemma_ext_trans(s0, s1, *self);
                        }
                        r
                    },
                    Some(h) => {
                        if str_eq(h, "begin") || str_eq(h, "unsafe") {
                            self.infer_begin(sigs, expr, items, want)
                        } else if str_eq(h, "let") {
                            self.infer_let(sigs, expr, items)
                        } else if str_eq(h, "set") {
                            self.infer_set(sigs, expr, items, false)
                        } else if str_eq(h, "set0") {
                            self.infer_set(sigs, expr, items, true)
                        } else if str_eq(h, "if") {
                            self.infer_if(sigs, expr, items, want)
                        } else if str_eq(h, "for") {
                            self.infer_for(sigs, expr, items)
                        } else if str_eq(h, "return") {
                            self.infer_return(sigs, expr, items)
                        } else if str_eq(h, "try") {
                            self.infer_try(sigs, expr, items, want)
                        } else if str_eq(h, "tapp") {
                            self.infer_tapp(sigs, expr, items, want)
                        } else if str_starts_with(h, "ty.") {
                            self.infer_ty_intrinsic(sigs, expr, items, h, want)
                        } else {
                            self.infer_call(sigs, expr, items, h, want)
                        }
                    },
                }
            },
        }
    }

    fn infer_begin(&mut self, sigs: &TypecheckSigs, whole: &Expr, items: &Vec<Expr>, want: Option<&TyTerm>) -> (r: TyInfoTerm)
        requires
            old(self).wf(),
            sigs.wf(),
            whole@ matches ExprV::List(vs, _) && vs == view_exprs(items@),
        ensures
            InferState::extends(*old(self), *final(self)),
        decreases whole@, 3nat,
    {
        let ghost s0 = *self;
        if items.len() < 2 {
            return self.fresh_info();
        }
        self.push_scope();
        let ghost pushed = *self;
        proof {
            lemma_ext_refl(pushed);
        }
        self.infer_items_range(sigs, whole, items, 1, items.len() - 1);
        let tail = &items[items.len() - 1];
        proof {
            lemma_child(whole@, items@, items.len() - 1);
        }
        let ghost s1 = *self;
        let out = match want {
            Some(w) => {
                self.check_expr(sigs, tail, w, ConstraintOrigin::ExprCheck);
                TyInfoTerm::unbranded(w.clone())
            },
            None => self.infer_expr(sigs, tail, None),
        };
        proof {
            lemma_ext_trans(pushed, s1, *self);
        }
        let ghost inner = *self;
        self.pop_scope();
        proof {
            lemma_ext_scope(s0, pushed, inner, *self);
        }
        out
    }

    fn infer_let(&mut self, sigs: &TypecheckSigs, whole: &Expr, items: &Vec<Expr>) -> (r: TyInfoTerm)
        requires
            old(self).wf(),
            sigs.wf(),
            whole@ matches ExprV::List(vs, _) && vs == view_exprs(items@),
        ensures
            InferState::extends(*old(self), *final(self)),
        decreases whole@, 3nat,
    {
        let ghost s0 = *self;
        if items.len() != 3 {
            return self.fresh_info();
        }
        let name = match items[1].as_ident() {
            Some(n) => n,
            None => {
                return self.fresh_info();
            },
        };
        proof {
            lemma_child(whole@, items@, 2);
        }
        let init_ty = self.infer_expr(sigs, &items[2], None);
        let ghost s1 = *self;
        self.bind(name.to_string(), init_ty.clone());
        proof {
            lemma_ext_trans(s0, s1, *self);
        }
        init_ty
    }

    /// `set` (`is_set0` false) or `set0`: assigns a local in scope.
    fn infer_set(&mut self, sigs: &TypecheckSigs, whole: &Expr, items: &Vec<Expr>, is_set0: bool) -> (r: TyInfoTerm)
        requires
            old(self).wf(),
            sigs.wf(),
            whole@ matches ExprV::List(vs, _) && vs == view_exprs(items@),
        ensures
            InferState::extends(*old(self), *final(self)),
        decreases whole@, 3nat,
    {
        let ghost s0 = *self;
        if items.len() != 3 {
            return self.fresh_info();
        }
        let name = match items[1].as_ident() {
            Some(n) => n,
            None => {
                return self.fresh_info();
            },
        };
        proof {
            lemma_child(whole@, items@, 2);
        }
        match self.lookup(name) {
            None => {
                let form = if is_set0 {
                    "set0"
                } else {
                    "set"
                };
                let d = unknown_local_diag(form, name, whole.ptr());
                self.push_diag(d);
                let ghost s1 = *self;
                let _ = self.infer_expr(sigs, &items[2], None);
                let ghost s2 = *self;
                let r = self.fresh_info();
                proof {
                    lemma_ext_trans(s0, s1, s2);
                    lemma_ext_trans(s0, s2, *self);
                }
                r
            },
            Some(var) => {
                self.check_expr(
                    sigs,
                    &items[2],
                    &var.ty,
                    ConstraintOrigin::SetAssign { name: name.to_string() },
                );
                if is_set0 {
                    TyInfoTerm::unbranded(TyTerm::Named("i32".to_string()))
                } else {
                    var
                }
            },
        }
    }

    fn infer_if(&mut self, sigs: &TypecheckSigs, whole: &Expr, items: &Vec<Expr>, want: Option<&TyTerm>) -> (r: TyInfoTerm)
        requires
            old(self).wf(),
            sigs.wf(),
            whole@ matches ExprV::List(vs, _) && vs == view_exprs(items@),
        ensures
            InferState::extends(*old(self), *final(self)),
        decreases whole@, 3nat,
    {
        let ghost s0 = *self;
        if items.len() != 4 {
            return self.fresh_info();
        }
        proof {
            lemma_child(whole@, items@, 1);
            lemma_child(whole@, items@, 2);
            lemma_child(whole@, items@, 3);
        }
        let i32_ty = TyTerm::Named("i32".to_string());
        self.check_expr(sigs, &items[1], &i32_ty, ConstraintOrigin::IfCond);
        let ghost s1 = *self;
        match want {
            Some(w) => {
                self.push_scope();
                let ghost p1 = *self;
                self.check_expr(sigs, &items[2], w, ConstraintOrigin::ExprCheck);
                let ghost i1 = *self;
                self.pop_scope();
                proof {
                    lemma_ext_scope(s1, p1, i1, *self);
                    lemma_ext_trans(s0, s1, *self);
                }
                let ghost s2 = *self;
                self.push_scope();
                let ghost p2 = *self;
                self.check_expr(sigs, &items[3], w, ConstraintOrigin::ExprCheck);
                let ghost i2 = *self;
                self.pop_scope();
                proof {
                    lemma_ext_scope(s2, p2, i2, *self);
                    lemma_ext_trans(s0, s2, *self);
                }
                return TyInfoTerm::unbranded(w.clone());
            },
            None => {},
        }
        self.push_scope();
        let ghost p1 = *self;
        let then_ty = self.infer_expr(sigs, &items[2], None);
        let ghost i1 = *self;
        self.pop_scope();
        proof {
            lemma_ext_scope(s1, p1, i1, *self);
            lemma_ext_trans(s0, s1, *self);
        }
        let ghost s2 = *self;
        self.push_scope();
        let ghost p2 = *self;
        let else_ty = self.infer_expr(sigs, &items[3], None);
        let ghost i2 = *self;
        self.pop_scope();
        proof {
            lemma_ext_scope(s2, p2, i2, *self);
            lemma_ext_trans(s0, s2, *self);
        }
        let then_never = match &then_ty.ty {
            TyTerm::Never => true,
            _ => false,
        };
        let else_never = match &else_ty.ty {
            TyTerm::Never => true,
            _ => false,
        };
        if then_never && else_never {
            TyInfoTerm::unbranded(TyTerm::Never)
        } else if then_never {
            else_ty
        } else if else_never {
            then_ty
        } else {
            let ghost s3 = *self;
            self.add_constraint(
                then_ty.ty.clone(),
                else_ty.ty.clone(),
                whole.ptr().to_string(),
                ConstraintOrigin::IfBranch,
            );
            proof {
                lemma_ext_trans(s0, s3, *self);
            }
            then_ty
        }
    }

    fn infer_for(&mut self, sigs: &TypecheckSigs, whole: &Expr, items: &Vec<Expr>) -> (r: TyInfoTerm)
        requires
            old(self).wf(),
            sigs.wf(),
            whole@ matches ExprV::List(vs, _) && vs == view_exprs(items@),
        ensures
            InferState::extends(*old(self), *final(self)),
        decreases whole@, 3nat,
    {
        let ghost s0 = *self;
        if items.len() != 5 {
            return self.fresh_info();
        }
        let var = match items[1].as_ident() {
            Some(n) => n,
            None => {
                return self.fresh_info();
            },
        };
        proof {
            lemma_child(whole@, items@, 2);
            lemma_child(whole@, items@, 3);
            lemma_child(whole@, items@, 4);
        }
        let i32_ty = TyTerm::Named("i32".to_string());
        self.check_expr(sigs, &items[2], &i32_ty, ConstraintOrigin::ExprCheck);
        let ghost s1 = *self;
        self.check_expr(sigs, &items[3], &i32_ty, ConstraintOrigin::ExprCheck);
        proof {
            lemma_ext_trans(s0, s1, *self);
        }
        let ghost s2 = *self;
        self.push_scope();
        let ghost p = *self;
        proof {
            lemma_ext_refl(p);
        }
        self.bind(var.to_string(), TyInfoTerm::unbranded(TyTerm::Named("i32".to_string())));
        let ghost b = *self;
        let _ = self.infer_expr(sigs, &items[4], None);
        proof {
            lemma_ext_trans(p, b, *self);
        }
        let ghost inner = *self;
        self.pop_scope();
        proof {
            lemma_ext_scope(s2, p, inner, *self);
            lemma_ext_trans(s0, s2, *self);
        }
        TyInfoTerm::unbranded(TyTerm::Named("i32".to_string()))
    }

    fn infer_return(&mut self, sigs: &TypecheckSigs, whole: &Expr, items: &Vec<Expr>) -> (r: TyInfoTerm)
        requires
            old(self).wf(),
            sigs.wf(),
            whole@ matches ExprV::List(vs, _) && vs == view_exprs(items@),
        ensures
            InferState::extends(*old(self), *final(self)),
            r.ty@ == TyT::Never,
        decreases whole@, 3nat,
    {
        let ghost s0 = *self;
        if items.len() != 2 {
            proof {
                lemma_ext_refl(s0);
            }
            return TyInfoTerm::unbranded(TyTerm::Never);
        }
        proof {
            lemma_child(whole@, items@, 1);
        }
        let want = self.fn_ret.clone();
        self.check_expr(sigs, &items[1], &want, ConstraintOrigin::Return);
        TyInfoTerm::unbranded(TyTerm::Never)
    }

    /// Adds `out == want` when the context wants a type, and gives the
    /// resulting type info.
    fn finish_with_want(&mut self, out: TyTerm, want: Option<&TyTerm>, ptr: &str) -> (r: TyInfoTerm)
        requires
            old(self).wf(),
        ensures
            InferState::extends(*old(self), *final(self)),
            final(self).diagnostics == old(self).diagnostics,
            final(self).pending_tapp == old(self).pending_tapp,
            match want {
                Some(w) => one_constraint_added(
                    old(self).constraints@,
                    final(self).constraints@,
                    out@,
                    w@,
                    ptr@,
                    OriginV::ExprCheck,
                ),
                None => final(self).constraints == old(self).constraints,
            },
    {
        let ghost s0 = *self;
        match want {
            Some(w) => {
                self.add_constraint(out, w.clone(), ptr.to_string(), ConstraintOrigin::ExprCheck);
                TyInfoTerm::unbranded(w.clone())
            },
            None => {
                proof {
                    lemma_ext_refl(s0);
                }
                TyInfoTerm::unbranded(out)
            },
        }
    }

    fn infer_try(&mut self, sigs: &TypecheckSigs, whole: &Expr, items: &Vec<Expr>, want: Option<&TyTerm>) -> (r: TyInfoTerm)
        requires
            old(self).wf(),
            sigs.wf(),
            whole@ matches ExprV::List(vs, _) && vs == view_exprs(items@),
        ensures
            InferState::extends(*old(self), *final(self)),
        decreases whole@, 3nat,
    {
        let ghost s0 = *self;
        if items.len() != 2 {
            return self.fresh_info();
        }
        proof {
            lemma_child(whole@, items@, 1);
        }
        let arg = self.infer_expr(sigs, &items[1], None);
        let ghost s1 = *self;
        let ret = self.fn_ret.clone();
        self.add_constraint(
            arg.ty.clone(),
            ret,
            items[1].ptr().to_string(),
            ConstraintOrigin::ExprCheck,
        );
        proof {
            lemma_ext_trans(s0, s1, *self);
        }
        let ghost s2 = *self;
        let out = match &arg.ty {
            TyTerm::Named(s) => {
                if str_eq(s.as_str(), "result_i32") {
                    proof {
                        lemma_ext_refl(s2);
                    }
                    TyTerm::Named("i32".to_string())
                } else if str_eq(s.as_str(), "result_bytes") {
                    proof {
                        lemma_ext_refl(s2);
                    }
                    TyTerm::Named("bytes".to_string())
                } else {
                    self.fresh_meta()
                }
            },
            _ => self.fresh_meta(),
        };
        proof {
            lemma_ext_trans(s0, s2, *self);
        }
        let ghost s3 = *self;
        let r = self.finish_with_want(out, want, whole.ptr());
        proof {
            lemma_ext_trans(s0, s3, *self);
        }
        r
    }

    fn infer_tapp(&mut self, sigs: &TypecheckSigs, whole: &Expr, items: &Vec<Expr>, want: Option<&TyTerm>) -> (r: TyInfoTerm)
        requires
            old(self).wf(),
            sigs.wf(),
            whole@ matches ExprV::List(vs, _) && vs == view_exprs(items@),
        ensures
            InferState::extends(*old(self), *final(self)),
        decreases whole@, 3nat,
    {
        let ghost s0 = *self;
        if items.len() < 3 {
            return self.fresh_info();
        }
        let callee = match items[1].as_ident() {
            Some(c) => c,
            None => {
                return self.fresh_info();
            },
        };
        let list_ptr = whole.ptr();
        match sigs.get(callee) {
            None => {
                if self.should_diag_unknown_callee(callee) {
                    let d = unknown_callee_diag(callee, list_ptr);
                    self.push_diag(d);
                } else {
                    proof {
                        lemma_ext_refl(s0);
                    }
                }
                let ghost s1 = *self;
                if tys_items(&items[2]).is_some() {
                    self.infer_items_range(sigs, whole, items, 3, items.len());
                } else {
                    proof {
                        lemma_ext_refl(s1);
                    }
                }
                proof {
                    lemma_ext_trans(s0, s1, *self);
                }
                let ghost s2 = *self;
                let r = match want {
                    Some(w) => {
                        proof {
                            lemma_ext_refl(s2);
                        }
                        TyInfoTerm::unbranded(w.clone())
                    },
                    None => self.fresh_info(),
                };
                proof {
                    lemma_ext_trans(s0, s2, *self);
                }
                r
            },
            Some(sig) => {
                if sig.type_params.len() == 0 {
                    return self.infer_call(sigs, whole, items, callee, want);
                }
                let arity = sig.type_params.len();
                let ghost s1 = *self;
                let (targs, tstart, value_start): (&Vec<Expr>, usize, usize) = match tys_items(&items[2]) {
                    Some(tys) => {
                        proof {
                            lemma_ext_refl(s1);
                        }
                        (tys, 1, 3)
                    },
                    None => {
                        if items.len() - 2 < arity {
                            let d = tapp_arity_diag(callee, arity, items.len() - 2, list_ptr);
                            self.push_diag(d);
                            let ghost s2 = *self;
                            self.infer_items_range(sigs, whole, items, 2, items.len());
                            let ghost s3 = *self;
                            let r = self.fresh_info();
                            proof {
                                lemma_ext_trans(s0, s2, s3);
                                lemma_ext_trans(s0, s3, *self);
                            }
                            return r;
                        }
                        proof {
                            lemma_ext_refl(s1);
                        }
                        (items, 2, 2 + arity)
                    },
                };
                let ntargs = if targs.len() >= tstart {
                    if value_start == 3 {
                        targs.len() - tstart
                    } else {
                        arity
                    }
                } else {
                    0
                };
                let ghost s2 = *self;
                if ntargs != arity {
                    let d = tapp_arity_diag(callee, arity, ntargs, list_ptr);
                    self.push_diag(d);
                } else {
                    proof {
                        lemma_ext_refl(s2);
                    }
                }
                proof {
                    lemma_ext_trans(s0, s2, *self);
                }
                let n = if ntargs < arity {
                    ntargs
                } else {
                    arity
                };
                let mut subst: Vec<(String, TyTerm)> = Vec::new();
                let mut k: usize = 0;
                let ghost s3 = *self;
                proof {
                    lemma_ext_refl(s3);
                }
                while k < n
                    invariant
                        k <= n,
                        n <= arity,
                        arity == sig.type_params.len(),
                        n <= ntargs,
                        tstart + ntargs <= targs.len(),
                        self.wf(),
                        InferState::extends(s3, *self),
                    decreases n - k,
                {
                    let t = match type_ref_from_expr(&targs[tstart + k]) {
                        Some(tr) => type_ref_to_term(&tr),
                        None => self.fresh_meta(),
                    };
                    proof {
                        lemma_ext_refl(*self);
                    }
                    subst.push((sig.type_params[k].name.clone(), t));
                    k = k + 1;
                }
                proof {
                    lemma_ext_trans(s0, s3, *self);
                }
                let ghost s4 = *self;
                let r = self.infer_call_with_subst(sigs, whole, items, value_start, sig, want, subst);
                proof {
                    lemma_ext_trans(s0, s4, *self);
                }
                r
            },
        }
    }

    /// The `ty.*` intrinsics, whose first argument is a type.
    fn infer_ty_intrinsic(&mut self, sigs: &TypecheckSigs, whole: &Expr, items: &Vec<Expr>, head: &str, want: Option<&TyTerm>) -> (r: TyInfoTerm)
        requires
            old(self).wf(),
            sigs.wf(),
            whole@ matches ExprV::List(vs, _) && vs == view_exprs(items@),
        ensures
            InferState::extends(*old(self), *final(self)),
        decreases whole@, 3nat,
    {
        let ghost s0 = *self;
        if items.len() < 2 {
            return self.fresh_info();
        }
        let tr = match type_ref_from_expr(&items[1]) {
            Some(tr) => tr,
            None => {
                return self.fresh_info();
            },
        };
        let tt = type_ref_to_term(&tr);
        let list_ptr = whole.ptr();
        let out = if str_eq(head, "ty.size_bytes") || str_eq(head, "ty.size") {
            self.infer_items_range(sigs, whole, items, 2, items.len());
            TyTerm::Named("i32".to_string())
        } else if str_eq(head, "ty.read_le_at") {
            self.infer_items_range(sigs, whole, items, 2, items.len());
            tt.clone()
        } else if str_eq(head, "ty.write_le_at") {
            self.infer_items_range(sigs, whole, items, 2, items.len());
            TyTerm::Named("bytes".to_string())
        } else if str_eq(head, "ty.push_le") {
            self.infer_items_range(sigs, whole, items, 2, items.len());
            TyTerm::Named("vec_u8".to_string())
        } else if str_eq(head, "ty.clone") || str_eq(head, "ty.drop") {
            let got_arity = items.len() - 1;
            if got_arity != 2 {
                let d = call_arity_diag(head, 2, got_arity, list_ptr, "");
                proof {
                    reveal_strlit("");
                }
                self.push_diag(d);
            } else {
                proof {
                    lemma_ext_refl(s0);
                }
            }
            let ghost s1 = *self;
            if items.len() > 2 {
                proof {
                    lemma_child(whole@, items@, 2);
                }
                self.check_expr(
                    sigs,
                    &items[2],
                    &tt,
                    ConstraintOrigin::CallArg {
                        callee: head.to_string(),
                        arg_index: 1,
                        callee_decl_ptr: None,
                    },
                );
            } else {
                proof {
                    lemma_ext_refl(s1);
                }
            }
            proof {
                lemma_ext_trans(s0, s1, *self);
            }
            let ghost s2 = *self;
            if items.len() > 3 {
                self.infer_items_range(sigs, whole, items, 3, items.len());
            } else {
                proof {
                    lemma_ext_refl(s2);
                }
            }
            proof {
                lemma_ext_trans(s0, s2, *self);
            }
            if str_eq(head, "ty.clone") {
                tt.clone()
            } else {
                TyTerm::Named("i32".to_string())
            }
        } else if str_eq(head, "ty.lt") || str_eq(head, "ty.eq") || str_eq(head, "ty.cmp")
            || str_eq(head, "ty.hash32") {
            self.infer_items_range(sigs, whole, items, 2, items.len());
            TyTerm::Named("i32".to_string())
        } else {
            self.infer_items_range(sigs, whole, items, 2, items.len());
            let ghost s1 = *self;
            let m = self.fresh_meta();
            proof {
                lemma_ext_trans(s0, s1, *self);
            }
            m
        };
        let ghost s5 = *self;
        let r = self.finish_with_want(out, want, list_ptr);
        proof {
            lemma_ext_trans(s0, s5, *self);
        }
        r
    }

    /// A call of `callee` with `items[1..]` as arguments.
    fn infer_call(&mut self, sigs: &TypecheckSigs, whole: &Expr, items: &Vec<Expr>, callee: &str, want: Option<&TyTerm>) -> (r: TyInfoTerm)
        requires
            old(self).wf(),
            sigs.wf(),
            whole@ matches ExprV::List(vs, _) && vs == view_exprs(items@),
            items@.len() >= 1,
        ensures
            InferState::extends(*old(self), *final(self)),
            unknown_callee_reported(*old(self), *final(self), sigs.table(), callee@, expr_ptr(whole@)),
            callee@ == "bytes.lit"@ ==> bytes_lit_inferred(
                *old(self),
                *final(self),
                match want {
                    Some(w) => Some(w@),
                    None => None,
                },
                expr_ptr(whole@),
            ),
        decreases whole@, 2nat,
    {
        let ghost s0 = *self;
        let list_ptr = whole.ptr();
        if str_eq(callee, "bytes.lit") {
            return self.finish_with_want(TyTerm::Named("bytes".to_string()), want, list_ptr);
        }
        if str_eq(callee, "bytes.view_lit") {
            return self.finish_with_want(TyTerm::Named("bytes_view".to_string()), want, list_ptr);
        }
        match sigs.get(callee) {
            None => {
                if self.should_diag_unknown_callee(callee) {
                    let d = unknown_callee_diag(callee, list_ptr);
                    self.push_diag(d);
                } else {
                    proof {
                        lemma_ext_refl(s0);
                    }
                }
                let ghost s1 = *self;
                self.infer_items_range(sigs, whole, items, 1, items.len());
                proof {
                    lemma_ext_trans(s0, s1, *self);
                }
                let ghost s2 = *self;
                let r = match want {
                    Some(w) => {
                        proof {
                            lemma_ext_refl(s2);
                        }
                        TyInfoTerm::unbranded(w.clone())
                    },
                    None => self.fresh_info(),
                };
                proof {
                    lemma_ext_trans(s0, s2, *self);
                    lemma_ext_trans(s1, s2, *self);
                    let k = s0.diagnostics@.len() as int;
                    if callee_in_module(callee@, s0.module_id@) {
                        assert(s1.diagnostics@[k] == self.diagnostics@.take(s1.diagnostics@.len() as int)[k]);
                    }
                }
                r
            },
            Some(sig) => {
                if sig.type_params.len() == 0 {
                    return self.infer_call_with_subst(sigs, whole, items, 1, sig, want, Vec::new());
                }
                let mut tp_names: Vec<String> = Vec::new();
                let mut meta_ids: Vec<u32> = Vec::new();
                let mut subst: Vec<(String, TyTerm)> = Vec::new();
                let mut k: usize = 0;
                proof {
                    lemma_ext_refl(s0);
                }
                while k < sig.type_params.len()
                    invariant
                        k <= sig.type_params.len(),
                        self.wf(),
                        InferState::extends(s0, *self),
                    decreases sig.type_params.len() - k,
                {
                    let id = self.meta_counter;
                    let ghost s1 = *self;
                    let _ = self.fresh_meta();
                    proof {
                        lemma_ext_trans(s0, s1, *self);
                    }
                    meta_ids.push(id);
                    tp_names.push(sig.type_params[k].name.clone());
                    subst.push((sig.type_params[k].name.clone(), TyTerm::Meta(id)));
                    k = k + 1;
                }
                let ghost s1 = *self;
                self.pending_tapp.push(
                    PendingImplicitTapp {
                        call_ptr: list_ptr.to_string(),
                        callee: callee.to_string(),
                        type_params: tp_names,
                        meta_ids,
                    },
                );
                proof {
                    lemma_prefix_push(s1.pending_tapp@, self.pending_tapp@.last());
                    lemma_prefix_refl(s1.constraints@);
                    lemma_prefix_refl(s1.diagnostics@);
                    lemma_prefix_refl(s1.env_stack@.last()@);
                    lemma_ext_trans(s0, s1, *self);
                }
                let ghost s2 = *self;
                let r = self.infer_call_with_subst(sigs, whole, items, 1, sig, want, subst);
                proof {
                    lemma_ext_trans(s0, s2, *self);
                }
                r
            },
        }
    }

    /// Checks `items[start..]` against the parameters of `sig` (type
    /// variables replaced as `type_subst` binds them) and gives the result type.
    fn infer_call_with_subst(
        &mut self,
        sigs: &TypecheckSigs,
        whole: &Expr,
        items: &Vec<Expr>,
        start: usize,
        sig: &FnSigAst,
        want: Option<&TyTerm>,
        type_subst: Vec<(String, TyTerm)>,
    ) -> (r: TyInfoTerm)
        requires
            old(self).wf(),
            sigs.wf(),
            whole@ matches ExprV::List(vs, _) && vs == view_exprs(items@),
            start <= items@.len(),
        ensures
            InferState::extends(*old(self), *final(self)),
        decreases whole@, 1nat,
    {
        let ghost s0 = *self;
        let list_ptr = whole.ptr();
        let want_arity = sig.params.len();
        let got_arity = items.len() - start;
        if want_arity != got_arity {
            let d = call_arity_diag(
                sig.name.as_str(),
                want_arity,
                got_arity,
                list_ptr,
                sig.decl_ptr.as_str(),
            );
            self.push_diag(d);
        } else {
            proof {
                lemma_ext_refl(s0);
            }
        }
        let ghost s1 = *self;
        let n = if want_arity < got_arity {
            want_arity
        } else {
            got_arity
        };
        let has_decl = sig.decl_ptr.as_str().unicode_len() > 0;
        let ilen = items.len();
        let mut idx: usize = 0;
        proof {
            lemma_ext_refl(s1);
        }
        while idx < n
            invariant
                idx <= n,
                n <= want_arity,
                n <= got_arity,
                want_arity == sig.params.len(),
                got_arity == items@.len() - start,
                start <= items@.len(),
                start + n <= items@.len(),
                ilen == items@.len(),
                whole@ matches ExprV::List(vs, _) && vs == view_exprs(items@),
                sigs.wf(),
                self.wf(),
                InferState::extends(s1, *self),
            decreases n - idx,
        {
            let arg_pos: usize = start + idx;
            let want_ty = type_ref_to_term_with_subst(&sig.params[idx].1, &type_subst);
            let decl = if has_decl {
                Some(sig.decl_ptr.clone())
            } else {
                None
            };
            proof {
                lemma_child(whole@, items@, arg_pos as int);
            }
            let ghost s2 = *self;
            self.check_expr(
                sigs,
                &items[arg_pos],
                &want_ty,
                ConstraintOrigin::CallArg {
                    callee: sig.name.clone(),
                    arg_index: idx,
                    callee_decl_ptr: decl,
                },
            );
            proof {
                lemma_ext_trans(s1, s2, *self);
            }
            idx = idx + 1;
        }
        proof {
            lemma_ext_trans(s0, s1, *self);
        }
        let mut ret = type_ref_to_term_with_subst(&sig.result, &type_subst);
        let ret_brand = clone_opt_string(&sig.result_brand);
        if sig.is_async {
            ret = TyTerm::Named("i32".to_string());
        }
        match want {
            Some(w) => {
                let ghost s3 = *self;
                self.add_constraint(ret, w.clone(), list_ptr.to_string(), ConstraintOrigin::ExprCheck);
                proof {
                    lemma_ext_trans(s0, s3, *self);
                }
                TyInfoTerm { ty: w.clone(), brand: ret_brand, view_full: false }
            },
            None => TyInfoTerm { ty: ret, brand: ret_brand, view_full: false },
        }
    }
}


/// The order in which constraints are solved: by blame pointer, then origin
/// kind, then (between call arguments) callee and argument index.
pub open spec fn ckey_le(a: ConstraintV, b: ConstraintV) -> bool {
    if a.blame != b.blame {
        chars_le(a.blame, b.blame)
    } else if origin_key(a.origin) != origin_key(b.origin) {
        chars_le(origin_key(a.origin), origin_key(b.origin))
    } else {
        match (a.origin, b.origin) {
            (OriginV::CallArg(ac, ai, _), OriginV::CallArg(bc, bi, _)) => if ac != bc {
                chars_le(ac, bc)
            } else {
                ai <= bi
            },
            _ => true,
        }
    }
}

/// Constraints are solved in order of their blame pointer; at one pointer,
/// by origin kind; call arguments of one callee by argument position.
pub proof fn lemma_solve_order_by_pointer(a: ConstraintV, b: ConstraintV)
    requires
        ckey_le(a, b),
    ensures
        a.blame != b.blame ==> chars_le(a.blame, b.blame),
        a.blame == b.blame && origin_key(a.origin) != origin_key(b.origin) ==> chars_le(
            origin_key(a.origin),
            origin_key(b.origin),
        ),
        a.blame == b.blame ==> (a.origin matches OriginV::CallArg(ac, ai, _) ==> (b.origin matches OriginV::CallArg(
            bc,
            bi,
            _,
        ) ==> ac == bc ==> ai <= bi)),
{
}

pub proof fn lemma_ckey_total(a: ConstraintV, b: ConstraintV)
    ensures
        ckey_le(a, b) || ckey_le(b, a),
{
    lemma_chars_le_total(a.blame, b.blame);
    lemma_chars_le_total(origin_key(a.origin), origin_key(b.origin));
    match (a.origin, b.origin) {
        (OriginV::CallArg(ac, _, _), OriginV::CallArg(bc, _, _)) => {
            lemma_chars_le_total(ac, bc);
        },
        _ => {},
    }
}

pub proof fn lemma_strict_chars_trans(x: Seq<char>, y: Seq<char>, z: Seq<char>)
    requires
        x != y ==> chars_le(x, y),
        y != z ==> chars_le(y, z),
        x != y || y != z,
    ensures
        x != z,
        chars_le(x, z),
{
    if x != y && y != z {
        lemma_chars_le_trans(x, y, z);
        if x == z {
            lemma_chars_le_antisym(x, y);
        }
    }
}

/// Only a call-argument origin has the key `call_arg`.
pub proof fn lemma_origin_key_call_arg(o: OriginV)
    ensures
        (origin_key(o) == "call_arg"@) == (o is CallArg),
{
    reveal_strlit("call_arg");
    assert("call_arg"@.len() == 8);
    match o {
        OriginV::CallArg(..) => {},
        OriginV::Return => {
            reveal_strlit("return");
            assert("return"@.len() == 6);
        },
        OriginV::IfCond => {
            reveal_strlit("if_cond");
            assert("if_cond"@.len() == 7);
        },
        OriginV::IfBranch => {
            reveal_strlit("if_branch");
            assert("if_branch"@.len() == 9);
        },
        OriginV::SetAssign(..) => {
            reveal_strlit("set_assign");
            assert("set_assign"@.len() == 10);
        },
        OriginV::ContractExpr => {
            reveal_strlit("contract_expr");
            assert("contract_expr"@.len() == 13);
        },
        OriginV::ExprCheck => {
            reveal_strlit("expr_check");
            assert("expr_check"@.len() == 10);
        },
    }
}

pub proof fn lemma_ckey_trans(a: ConstraintV, b: ConstraintV, c: ConstraintV)
    requires
        ckey_le(a, b),
        ckey_le(b, c),
    ensures
        ckey_le(a, c),
{
    lemma_origin_key_call_arg(a.origin);
    lemma_origin_key_call_arg(b.origin);
    lemma_origin_key_call_arg(c.origin);
    if a.blame != b.blame || b.blame != c.blame {
        lemma_strict_chars_trans(a.blame, b.blame, c.blame);
    } else {
        let ka = origin_key(a.origin);
        let kb = origin_key(b.origin);
        let kc = origin_key(c.origin);
        if ka != kb || kb != kc {
            lemma_strict_chars_trans(ka, kb, kc);
        } else {
            match (a.origin, b.origin, c.origin) {
                (
                    OriginV::CallArg(ac, ai, _),
                    OriginV::CallArg(bc, bi, _),
                    OriginV::CallArg(cc, ci, _),
                ) => {
                    if ac != bc || bc != cc {
                        lemma_strict_chars_trans(ac, bc, cc);
                    }
                },
                _ => {},
            }
        }
    }
}

/// `ckey_le` on constraints.
pub fn constraint_le(a: &Constraint, b: &Constraint) -> (r: bool)
    ensures
        r == ckey_le(a@, b@),
{
    let ab = chars_of(a.blame_ptr.as_str());
    let bb = chars_of(b.blame_ptr.as_str());
    if !chars_eq(&ab, &bb) {
        return chars_le_exec(&ab, &bb);
    }
    let ak = chars_of(a.origin.key());
    let bk = chars_of(b.origin.key());
    if !chars_eq(&ak, &bk) {
        return chars_le_exec(&ak, &bk);
    }
    match (&a.origin, &b.origin) {
        (
            ConstraintOrigin::CallArg { callee: ac, arg_index: ai, .. },
            ConstraintOrigin::CallArg { callee: bc, arg_index: bi, .. },
        ) => {
            let acv = chars_of(ac.as_str());
            let bcv = chars_of(bc.as_str());
            if !chars_eq(&acv, &bcv) {
                chars_le_exec(&acv, &bcv)
            } else {
                *ai <= *bi
            }
        },
        _ => true,
    }
}

/// `j` occurs in `s`.
pub open spec fn covers_int(s: Seq<int>, j: int) -> bool {
    exists|p: int| 0 <= p < s.len() && #[trigger] s[p] == j
}

/// `j` occurs in `order`.
pub open spec fn covers(order: Seq<usize>, j: int) -> bool {
    exists|p: int| 0 <= p < order.len() && #[trigger] order[p] == j
}

/// `order` lists the indices of `cs` sorted by `ckey_le`, equal keys in
/// index order.
pub open spec fn is_solve_order(cs: Seq<Constraint>, order: Seq<usize>) -> bool {
    &&& order.len() == cs.len()
    &&& forall|p: int| 0 <= p < order.len() ==> #[trigger] order[p] < cs.len()
    &&& forall|p: int, q: int| 0 <= p < q < order.len() ==> #[trigger] order[p] != #[trigger] order[q]
    &&& forall|j: int| 0 <= j < cs.len() ==> #[trigger] covers(order, j)
    &&& forall|p: int, q: int|
        0 <= p < q < order.len() ==> ckey_le(cs[#[trigger] order[p] as int]@, cs[#[trigger] order[q] as int]@)
    &&& forall|p: int, q: int|
        0 <= p < q < order.len() && ckey_le(cs[order[q] as int]@, cs[order[p] as int]@) ==> #[trigger] order[p] < #[trigger] order[q]
}

/// `out` is `cs` reordered into a solve order.
pub open spec fn sorted_for_solving(cs: Seq<Constraint>, out: Seq<Constraint>) -> bool {
    exists|o: Seq<usize>|
        #[trigger] is_solve_order(cs, o) && out.len() == o.len() && forall|p: int|
            0 <= p < o.len() ==> #[trigger] out[p]@ == cs[o[p] as int]@
}

/// A copy of a constraint origin.
pub fn copy_origin(o: &ConstraintOrigin) -> (r: ConstraintOrigin)
    ensures
        r@ == o@,
{
    match o {
        ConstraintOrigin::CallArg { callee, arg_index, callee_decl_ptr } => ConstraintOrigin::CallArg {
            callee: callee.clone(),
            arg_index: *arg_index,
            callee_decl_ptr: match callee_decl_ptr {
                Some(p) => Some(p.clone()),
                None => None,
            },
        },
        ConstraintOrigin::Return => ConstraintOrigin::Return,
        ConstraintOrigin::IfCond => ConstraintOrigin::IfCond,
        ConstraintOrigin::IfBranch => ConstraintOrigin::IfBranch,
        ConstraintOrigin::SetAssign { name } => ConstraintOrigin::SetAssign { name: name.clone() },
        ConstraintOrigin::ContractExpr => ConstraintOrigin::ContractExpr,
        ConstraintOrigin::ExprCheck => ConstraintOrigin::ExprCheck,
    }
}

/// A copy of a constraint.
pub fn copy_constraint(c: &Constraint) -> (r: Constraint)
    ensures
        r@ == c@,
{
    Constraint {
        lhs: c.lhs.clone(),
        rhs: c.rhs.clone(),
        blame_ptr: c.blame_ptr.clone(),
        origin: copy_origin(&c.origin),
    }
}

/// The indices of `cs` in solving order (a stable sort by `ckey_le`).
pub fn solve_order(cs: &Vec<Constraint>) -> (order: Vec<usize>)
    ensures
        is_solve_order(cs@, order@),
{
    let mut order: Vec<usize> = Vec::new();
    let mut i: usize = 0;
    while i < cs.len()
        invariant
            i <= cs.len(),
            order@.len() == i,
            forall|p: int| 0 <= p < order@.len() ==> #[trigger] order@[p] < i,
            forall|p: int, q: int| 0 <= p < q < order@.len() ==> #[trigger] order@[p] != #[trigger] order@[q],
            forall|j: int| 0 <= j < i ==> #[trigger] covers(order@, j),
            forall|p: int, q: int|
                0 <= p < q < order@.len() ==> ckey_le(cs@[#[trigger] order@[p] as int]@, cs@[#[trigger] order@[q] as int]@),
            forall|p: int, q: int|
                0 <= p < q < order@.len() && ckey_le(cs@[order@[q] as int]@, cs@[order@[p] as int]@) ==> #[trigger] order@[p] < #[trigger] order@[q],
        decreases cs.len() - i,
    {
        let mut pos: usize = order.len();
        while pos > 0 && !constraint_le(&cs[order[pos - 1]], &cs[i])
            invariant
                i < cs.len(),
                order@.len() == i,
                pos <= order@.len(),
                forall|p: int| 0 <= p < order@.len() ==> #[trigger] order@[p] < i,
                forall|k: int| pos <= k < order@.len() ==> !ckey_le(cs@[#[trigger] order@[k] as int]@, cs@[i as int]@),
            decreases pos,
        {
            pos = pos - 1;
        }
        let ghost old_order = order@;
        proof {
            if pos > 0 {
                assert(ckey_le(cs@[old_order[pos - 1] as int]@, cs@[i as int]@));
            }
        }
        order.insert(pos, i);
        proof {
            let n = order@;
            assert forall|p: int| 0 <= p < n.len() implies #[trigger] n[p] < i + 1 by {
                if p < pos {
                    assert(n[p] == old_order[p]);
                } else if p > pos {
                    assert(n[p] == old_order[p - 1]);
                }
            }
            assert forall|p: int, q: int| 0 <= p < q < n.len() implies #[trigger] n[p] != #[trigger] n[q] by {
                if p < pos {
                    if q < pos {
                        assert(n[q] == old_order[q]);
                    } else if q > pos {
                        assert(n[q] == old_order[q - 1]);
                    }
                } else if p == pos {
                    assert(n[q] == old_order[q - 1]);
                } else {
                    assert(n[p] == old_order[p - 1]);
                    assert(n[q] == old_order[q - 1]);
                }
            }
            assert forall|j: int| 0 <= j < i + 1 implies #[trigger] covers(n, j) by {
                if j == i {
                    assert(n[pos as int] == j);
                } else {
                    assert(covers(old_order, j));
                    let p0 = choose|p: int| 0 <= p < old_order.len() && #[trigger] old_order[p] == j;
                    if p0 < pos {
                        assert(n[p0] == j);
                    } else {
                        assert(n[p0 + 1] == j);
                    }
                }
            }
            assert forall|p: int, q: int| 0 <= p < q < n.len() implies ckey_le(cs@[#[trigger] n[p] as int]@, cs@[#[trigger] n[q] as int]@) by {
                let ci = cs@[i as int]@;
                if p < pos && q < pos {
                    assert(n[p] == old_order[p] && n[q] == old_order[q]);
                } else if p < pos && q == pos {
                    assert(n[p] == old_order[p]);
                    if p < pos - 1 {
                        lemma_ckey_trans(cs@[old_order[p] as int]@, cs@[old_order[pos - 1] as int]@, ci);
                    }
                } else if p < pos && q > pos {
                    assert(n[p] == old_order[p] && n[q] == old_order[q - 1]);
                } else if p == pos {
                    assert(n[q] == old_order[q - 1]);
                    lemma_ckey_total(cs@[old_order[q - 1] as int]@, ci);
                } else {
                    assert(n[p] == old_order[p - 1] && n[q] == old_order[q - 1]);
                }
            }
            assert forall|p: int, q: int| 0 <= p < q < n.len() && ckey_le(cs@[n[q] as int]@, cs@[n[p] as int]@) implies #[trigger] n[p] < #[trigger] n[q] by {
                if p < pos && q < pos {
                    assert(n[p] == old_order[p] && n[q] == old_order[q]);
                } else if p < pos && q == pos {
                    assert(n[p] == old_order[p]);
                } else if p < pos && q > pos {
                    assert(n[p] == old_order[p] && n[q] == old_order[q - 1]);
                } else if p == pos {
                    assert(n[q] == old_order[q - 1]);
                } else {
                    assert(n[p] == old_order[p - 1] && n[q] == old_order[q - 1]);
                }
            }
        }
        i = i + 1;
    }
    order
}

/// `ms` holds the substitution before each unification of `cs`, in order,
/// and after the last: constraint `q` took `ms[q]` to `ms[q + 1]` as
/// `unify` promises, each succeeding but the last when `err` holds its
/// failure; no constraint after that one was unified, and without a failure
/// every constraint was.
pub open spec fn unify_trace(cs: Seq<Constraint>, ms: Seq<Map<u32, TyT>>, err: Option<UnifyError>) -> bool {
    let n = ms.len() - 1;
    &&& 1 <= ms.len() <= cs.len() + 1
    &&& forall|q: int|
        #![trigger ms[q]]
        0 <= q < n ==> unify_post(
            ms[q],
            cs[q].lhs@,
            cs[q].rhs@,
            ms[q + 1],
            if q == n - 1 && err is Some {
                Err::<(), UnifyError>(err->0)
            } else {
                Ok::<(), UnifyError>(())
            },
        )
    &&& err is None ==> n == cs.len()
    &&& err is Some ==> n >= 1
}

impl InferState {
    /// Solves the constraints in `solve_order`, stopping at the first one
    /// that fails, which is reported.
    pub fn solve_constraints(&mut self)
        requires
            old(self).wf(),
        ensures
            final(self).wf(),
            old(self).subst@.submap_of(final(self).subst@),
            sorted_for_solving(old(self).constraints@, final(self).constraints@),
            forall|p: int, q: int|
                0 <= p < q < final(self).constraints@.len() ==> ckey_le(
                    (#[trigger] final(self).constraints@[p])@,
                    (#[trigger] final(self).constraints@[q])@,
                ),
            final(self).env_stack == old(self).env_stack,
            final(self).pending_tapp == old(self).pending_tapp,
            final(self).module_id == old(self).module_id,
            final(self).fn_ret == old(self).fn_ret,
            final(self).meta_counter == old(self).meta_counter,
            ({
                let cs = old(self).constraints@;
                let m = final(self).subst@;
                ||| final(self).diagnostics@ == old(self).diagnostics@ && forall|i: int|
                    0 <= i < cs.len() ==> resolve_t(m, (#[trigger] cs[i]).lhs@) == resolve_t(m, cs[i].rhs@)
                ||| final(self).diagnostics@.len() == old(self).diagnostics@.len() + 1
                    && final(self).diagnostics@.drop_last() == old(self).diagnostics@
                    && exists|i: int, e: UnifyError|
                    0 <= i < cs.len() && #[trigger] unify_error_ok(m, e)
                        && final(self).diagnostics@.last()@ == unify_diag_v(
                        #[trigger] cs[i]@,
                        e.lhs@,
                        e.rhs@,
                        e.reason@,
                    )
            }),
            ({
                let cs = old(self).constraints@;
                let m = final(self).subst@;
                final(self).diagnostics@ != old(self).diagnostics@ ==> exists|o: Seq<usize>, p: int, e: UnifyError|
                    #![trigger is_solve_order(cs, o), unify_error_ok(m, e), o[p]]
                    is_solve_order(cs, o) && 0 <= p < o.len() && unify_error_ok(m, e) && clash_in(
                        resolve_t(m, cs[o[p] as int].lhs@),
                        resolve_t(m, cs[o[p] as int].rhs@),
                        e.lhs@,
                        e.rhs@,
                    ) && final(self).diagnostics@.last()@ == unify_diag_v(
                        cs[o[p] as int]@,
                        e.lhs@,
                        e.rhs@,
                        e.reason@,
                    ) && forall|q: int|
                        0 <= q < p ==> resolve_t(m, cs[#[trigger] o[q] as int].lhs@) == resolve_t(
                            m,
                            cs[o[q] as int].rhs@,
                        )
            }),
            (forall|i: int| 0 <= i < old(self).constraints@.len() ==> (#[trigger] old(self).constraints@[i]).lhs@
                == old(self).constraints@[i].rhs@) ==> final(self).diagnostics == old(self).diagnostics,
            exists|ms: Seq<Map<u32, TyT>>, err: Option<UnifyError>|
                #![trigger unify_trace(final(self).constraints@, ms, err)]
                unify_trace(final(self).constraints@, ms, err) && ms[0] == old(self).subst@ && ms.last()
                    == final(self).subst@ && (err is None ==> final(self).diagnostics == old(self).diagnostics) && (
                err matches Some(e) ==> final(self).diagnostics@.len() == old(self).diagnostics@.len() + 1
                    && final(self).diagnostics@.last()@ == unify_diag_v(
                    final(self).constraints@[ms.len() - 2]@,
                    e.lhs@,
                    e.rhs@,
                    e.reason@,
                )),
    {
        let order = solve_order(&self.constraints);
        let ghost cs = self.constraints@;
        let ghost d0 = self.diagnostics@;
        let ghost m0 = self.subst@;
        let ghost s0 = *self;
        let mut sorted: Vec<Constraint> = Vec::new();
        let mut k: usize = 0;
        while k < order.len()
            invariant
                is_solve_order(cs, order@),
                self.constraints@ == cs,
                k <= order@.len(),
                sorted@.len() == k,
                forall|q: int| 0 <= q < k ==> #[trigger] sorted@[q]@ == cs[order@[q] as int]@,
            decreases order.len() - k,
        {
            proof {
                assert(order@[k as int] < cs.len());
            }
            sorted.push(copy_constraint(&self.constraints[order[k]]));
            k = k + 1;
        }
        self.constraints = sorted;
        let ghost sc = self.constraints@;
        proof {
            assert forall|pp: int, qq: int| 0 <= pp < qq < sc.len() implies ckey_le(
                (#[trigger] sc[pp])@,
                (#[trigger] sc[qq])@,
            ) by {
                assert(ckey_le(cs[order@[pp] as int]@, cs[order@[qq] as int]@));
            }
        }
        let mut p: usize = 0;
        let ghost mut ms: Seq<Map<u32, TyT>> = seq![m0];
        while p < order.len()
            invariant
                is_solve_order(cs, order@),
                self.constraints@ == sc,
                ms.len() == p + 1,
                ms[0] == m0,
                ms[p as int] == self.subst@,
                forall|q: int|
                    #![trigger ms[q]]
                    0 <= q < p ==> unify_post(ms[q], sc[q].lhs@, sc[q].rhs@, ms[q + 1], Ok::<(), UnifyError>(())),
                sc.len() == order@.len(),
                forall|q: int| 0 <= q < sc.len() ==> #[trigger] sc[q]@ == cs[order@[q] as int]@,
                forall|pp: int, qq: int| 0 <= pp < qq < sc.len() ==> ckey_le(
                    (#[trigger] sc[pp])@,
                    (#[trigger] sc[qq])@,
                ),
                self.env_stack == s0.env_stack,
                self.pending_tapp == s0.pending_tapp,
                self.module_id == s0.module_id,
                self.fn_ret == s0.fn_ret,
                self.meta_counter == s0.meta_counter,
                s0.env_stack.len() >= 1,
                s0.constraints@ == cs,
                s0 == *old(self),
                m0 == old(self).subst@,
                d0 == old(self).diagnostics@,
                self.diagnostics@ == d0,
                self.subst.wf(),
                m0.submap_of(self.subst@),
                p <= order@.len(),
                forall|q: int| 0 <= q < p ==> resolve_t(self.subst@, cs[#[trigger] order@[q] as int].lhs@)
                    == resolve_t(self.subst@, cs[order@[q] as int].rhs@),
                self.diagnostics == old(self).diagnostics,
            decreases order.len() - p,
        {
            let ci = order[p];
            let ghost before = self.subst@;
            proof {
                assert(order@[p as int] < cs.len());
            }
            assert(m0.submap_of(before));
            proof {
                assert(sc[p as int]@ == cs[ci as int]@);
            }
            let res = unify(&mut self.subst, &self.constraints[p].lhs, &self.constraints[p].rhs);
            proof {
                assert(unify_post(before, sc[p as int].lhs@, sc[p as int].rhs@, self.subst@, res)) by {
                    reveal(unify_post);
                }
            }
            let ghost ms1 = ms.push(self.subst@);
            match res {
                Ok(()) => {
                    proof {
                        assert forall|q: int|
                            #![trigger ms1[q]]
                            0 <= q < p + 1 implies unify_post(
                            ms1[q],
                            sc[q].lhs@,
                            sc[q].rhs@,
                            ms1[q + 1],
                            Ok::<(), UnifyError>(()),
                        ) by {
                            assert(ms1[q] == ms[q]);
                            if q < p {
                                assert(ms1[q + 1] == ms[q + 1]);
                            } else {
                                let u: () = res->Ok_0;
                                assert(res == Ok::<(), UnifyError>(u));
                            }
                        }
                        ms = ms1;
                        vstd::map_lib::lemma_submap_of_trans(m0, before, self.subst@);
                        assert forall|q: int| 0 <= q < p + 1 implies resolve_t(self.subst@, cs[#[trigger] order@[q] as int].lhs@)
                            == resolve_t(self.subst@, cs[order@[q] as int].rhs@) by {
                            if q < p {
                                let c = cs[order@[q] as int];
                                lemma_resolve_ext(before, self.subst@, c.lhs@);
                                lemma_resolve_ext(before, self.subst@, c.rhs@);
                            }
                        }
                    }
                },
                Err(e) => {
                    proof {
                        vstd::map_lib::lemma_submap_of_trans(m0, before, self.subst@);
                    }
                    let d = diag_for_unify_error(&self.constraints[p], &e);
                    self.diagnostics.push(d);
                    proof {
                        assert(self.diagnostics@.drop_last() =~= d0);
                        assert(unify_error_ok(self.subst@, e));
                        assert(self.diagnostics@.last()@ == unify_diag_v(cs[ci as int]@, e.lhs@, e.rhs@, e.reason@));
                        let mf = self.subst@;
                        self.subst.lemma_dom();
                        assert forall|q: int| 0 <= q < p implies resolve_t(mf, cs[#[trigger] order@[q] as int].lhs@)
                            == resolve_t(mf, cs[order@[q] as int].rhs@) by {
                            let c = cs[order@[q] as int];
                            lemma_resolve_ext(before, mf, c.lhs@);
                            lemma_resolve_ext(before, mf, c.rhs@);
                        }
                        assert(order@[p as int] == ci);
                        assert(is_solve_order(cs, order@) && unify_error_ok(mf, e));
                        assert(sorted_for_solving(cs, self.constraints@));
                        assert forall|q: int|
                            #![trigger ms1[q]]
                            0 <= q < ms1.len() - 1 implies unify_post(
                            ms1[q],
                            sc[q].lhs@,
                            sc[q].rhs@,
                            ms1[q + 1],
                            if q == ms1.len() - 2 && Some(e) is Some {
                                Err::<(), UnifyError>(Some(e)->0)
                            } else {
                                Ok::<(), UnifyError>(())
                            },
                        ) by {
                            assert(ms1[q] == ms[q]);
                            if q < p {
                                assert(ms1[q + 1] == ms[q + 1]);
                            }
                        }
                        assert(unify_trace(self.constraints@, ms1, Some(e)));
                        assert(sc[ms1.len() - 2]@ == cs[ci as int]@);
                    }
                    return;
                },
            }
            p = p + 1;
        }
        proof {
            assert forall|i: int| 0 <= i < cs.len() implies resolve_t(self.subst@, (#[trigger] cs[i]).lhs@)
                == resolve_t(self.subst@, cs[i].rhs@) by {
                assert(covers(order@, i));
                let q = choose|q: int| 0 <= q < order@.len() && #[trigger] order@[q] == i;
                assert(cs[order@[q] as int] == cs[i]);
            }
            assert(sorted_for_solving(cs, self.constraints@));
            assert(unify_trace(self.constraints@, ms, None));
        }
    }
}

} // verus!

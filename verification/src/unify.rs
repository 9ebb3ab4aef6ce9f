//! First-order unification of type terms with metavariables.

use std::collections::BTreeMap;
use vstd::prelude::*;

verus! {

broadcast use {vstd::std_specs::btree::group_btree_axioms, vstd::laws_cmp::group_laws_cmp};

/// The mathematical form of a type term.
pub enum TyT {
    Named(Seq<char>),
    App(Seq<char>, Seq<TyT>),
    TParam(Seq<char>),
    Meta(u32),
    Never,
}

/// A type term: a named type, an applied constructor, a type parameter, a
/// metavariable or the bottom type `never`.
#[derive(Debug, PartialEq, Eq, PartialOrd, Ord)]
pub enum TyTerm {
    Named(String),
    App { head: String, args: Vec<TyTerm> },
    TParam(String),
    Meta(u32),
    Never,
}

pub open spec fn view_term(t: TyTerm) -> TyT
    decreases t, 0nat,
{
    match t {
        TyTerm::Named(s) => TyT::Named(s@),
        TyTerm::App { head, args } => TyT::App(head@, view_terms(args@)),
        TyTerm::TParam(s) => TyT::TParam(s@),
        TyTerm::Meta(m) => TyT::Meta(m),
        TyTerm::Never => TyT::Never,
    }
}

pub open spec fn view_terms(s: Seq<TyTerm>) -> Seq<TyT>
    decreases s, 1nat,
{
    if s.len() == 0 {
        Seq::empty()
    } else {
        seq![view_term(s[0])] + view_terms(s.drop_first())
    }
}

impl View for TyTerm {
    type V = TyT;

    open spec fn view(&self) -> TyT {
        view_term(*self)
    }
}

pub proof fn lemma_view_terms(s: Seq<TyTerm>)
    ensures
        view_terms(s).len() == s.len(),
        forall|i: int| 0 <= i < s.len() ==> #[trigger] view_terms(s)[i] == view_term(s[i]),
    decreases s.len(),
{
    if s.len() > 0 {
        lemma_view_terms(s.drop_first());
        assert forall|i: int| 0 <= i < s.len() implies #[trigger] view_terms(s)[i] == view_term(
            s[i],
        ) by {
            if i > 0 {
                assert(s.drop_first()[i - 1] == s[i]);
            }
        }
    }
}

/// `t` mentions metavariable `x`.
pub open spec fn occurs(t: TyT, x: u32) -> bool
    decreases t,
{
    match t {
        TyT::Meta(m) => m == x,
        TyT::App(_, args) => exists|i: int| 0 <= i < args.len() && occurs(#[trigger] args[i], x),
        _ => false,
    }
}

/// Number of constructors in `t`.
pub open spec fn size(t: TyT) -> nat
    decreases t, 0nat,
{
    match t {
        TyT::App(_, args) => 1 + sizes(args),
        _ => 1,
    }
}

pub open spec fn sizes(s: Seq<TyT>) -> nat
    decreases s, 1nat,
{
    if s.len() == 0 {
        0
    } else {
        size(s[0]) + sizes(s.drop_first())
    }
}

pub proof fn lemma_sizes_elem(s: Seq<TyT>, i: int)
    requires
        0 <= i < s.len(),
    ensures
        size(s[i]) <= sizes(s),
    decreases s.len(),
{
    if i > 0 {
        lemma_sizes_elem(s.drop_first(), i - 1);
        assert(s.drop_first()[i - 1] == s[i]);
    }
}

/// `r` ranks the bindings of `m` so that every bound metavariable mentioned
/// by a binding ranks below the binding itself.
pub open spec fn ranks_ok(m: Map<u32, TyT>, r: spec_fn(u32) -> nat) -> bool {
    forall|x: u32, y: u32|
        #![trigger m[x], m.dom().contains(y), r(y)]
        m.dom().contains(x) && m.dom().contains(y) && occurs(m[x], y) ==> r(y) < r(x)
}

/// Following bindings from any metavariable always terminates.
pub open spec fn acyclic(m: Map<u32, TyT>) -> bool {
    exists|r: spec_fn(u32) -> nat| ranks_ok(m, r)
}

/// One more than the highest rank of a bound metavariable mentioned by `t` (0 if none).
pub open spec fn hgt(m: Map<u32, TyT>, r: spec_fn(u32) -> nat, t: TyT) -> nat
    decreases t, 0nat,
{
    match t {
        TyT::Meta(x) => if m.dom().contains(x) { r(x) + 1 } else { 0 },
        TyT::App(_, args) => hgts(m, r, args),
        _ => 0,
    }
}

pub open spec fn hgts(m: Map<u32, TyT>, r: spec_fn(u32) -> nat, s: Seq<TyT>) -> nat
    decreases s, 1nat,
{
    if s.len() == 0 {
        0
    } else {
        let a = hgt(m, r, s[0]);
        let b = hgts(m, r, s.drop_first());
        if a >= b { a } else { b }
    }
}

pub proof fn lemma_hgts_elem(m: Map<u32, TyT>, r: spec_fn(u32) -> nat, s: Seq<TyT>, i: int)
    requires
        0 <= i < s.len(),
    ensures
        hgt(m, r, s[i]) <= hgts(m, r, s),
    decreases s.len(),
{
    if i > 0 {
        lemma_hgts_elem(m, r, s.drop_first(), i - 1);
        assert(s.drop_first()[i - 1] == s[i]);
    }
}

pub proof fn lemma_hgt_le(m: Map<u32, TyT>, r: spec_fn(u32) -> nat, t: TyT, b: nat)
    requires
        forall|y: u32| m.dom().contains(y) && occurs(t, y) ==> r(y) < b,
    ensures
        hgt(m, r, t) <= b,
    decreases t, 0nat,
{
    match t {
        TyT::App(h, args) => {
            assert forall|y: u32, i: int|
                0 <= i < args.len() && m.dom().contains(y) && #[trigger] occurs(
                    args[i],
                    y,
                ) implies r(y) < b by {
                assert(occurs(t, y));
            }
            lemma_hgts_le(m, r, args, b);
        },
        TyT::Meta(x) => {
            assert(occurs(t, x));
        },
        _ => {},
    }
}

pub proof fn lemma_hgts_le(m: Map<u32, TyT>, r: spec_fn(u32) -> nat, s: Seq<TyT>, b: nat)
    requires
        forall|y: u32, i: int|
            0 <= i < s.len() && m.dom().contains(y) && #[trigger] occurs(s[i], y) ==> r(y) < b,
    ensures
        hgts(m, r, s) <= b,
    decreases s, 1nat,
{
    if s.len() > 0 {
        assert forall|y: u32| m.dom().contains(y) && occurs(s[0], y) implies r(y) < b by {}
        lemma_hgt_le(m, r, s[0], b);
        assert forall|y: u32, i: int|
            0 <= i < s.drop_first().len() && m.dom().contains(y) && #[trigger] occurs(
                s.drop_first()[i],
                y,
            ) implies r(y) < b by {
            assert(s.drop_first()[i] == s[i + 1]);
        }
        lemma_hgts_le(m, r, s.drop_first(), b);
    }
}

/// Resolution of `t` under `m`, following bindings ranked by `r`.
pub open spec fn res(m: Map<u32, TyT>, r: spec_fn(u32) -> nat, t: TyT) -> TyT
    decreases hgt(m, r, t), t, 0nat,
    when ranks_ok(m, r)
{
    match t {
        TyT::Meta(x) => if m.dom().contains(x) {
            proof {
                lemma_hgt_le(m, r, m[x], r(x));
            }
            res(m, r, m[x])
        } else {
            TyT::Meta(x)
        },
        TyT::App(h, args) => TyT::App(h, ress(m, r, args)),
        _ => t,
    }
}

pub open spec fn ress(m: Map<u32, TyT>, r: spec_fn(u32) -> nat, s: Seq<TyT>) -> Seq<TyT>
    decreases hgts(m, r, s), s, 1nat,
    when ranks_ok(m, r)
{
    if s.len() == 0 {
        Seq::empty()
    } else {
        seq![res(m, r, s[0])] + ress(m, r, s.drop_first())
    }
}

} // verus!

verus! {

pub proof fn lemma_ress(m: Map<u32, TyT>, r: spec_fn(u32) -> nat, s: Seq<TyT>)
    requires
        ranks_ok(m, r),
    ensures
        ress(m, r, s).len() == s.len(),
        forall|i: int| 0 <= i < s.len() ==> #[trigger] ress(m, r, s)[i] == res(m, r, s[i]),
    decreases s.len(),
{
    if s.len() > 0 {
        lemma_ress(m, r, s.drop_first());
        assert forall|i: int| 0 <= i < s.len() implies #[trigger] ress(m, r, s)[i] == res(
            m,
            r,
            s[i],
        ) by {
            if i > 0 {
                assert(s.drop_first()[i - 1] == s[i]);
            }
        }
    }
}

/// Resolving never leaves a bound metavariable behind.
pub proof fn lemma_res_free(m: Map<u32, TyT>, r: spec_fn(u32) -> nat, t: TyT)
    requires
        ranks_ok(m, r),
    ensures
        forall|y: u32| #[trigger] occurs(res(m, r, t), y) ==> !m.dom().contains(y),
    decreases hgt(m, r, t), t,
{
    match t {
        TyT::Meta(x) => {
            if m.dom().contains(x) {
                lemma_hgt_le(m, r, m[x], r(x));
                lemma_res_free(m, r, m[x]);
            }
        },
        TyT::App(h, args) => {
            lemma_ress(m, r, args);
            assert forall|y: u32| #[trigger] occurs(res(m, r, t), y) implies !m.dom().contains(y) by {
                let rs = ress(m, r, args);
                let i = choose|i: int| 0 <= i < rs.len() && occurs(#[trigger] rs[i], y);
                lemma_hgts_elem(m, r, args, i);
                lemma_res_free(m, r, args[i]);
            }
        },
        _ => {},
    }
}

/// A term without bound metavariables resolves to itself.
pub proof fn lemma_res_id(m: Map<u32, TyT>, r: spec_fn(u32) -> nat, t: TyT)
    requires
        ranks_ok(m, r),
        forall|y: u32| #[trigger] occurs(t, y) ==> !m.dom().contains(y),
    ensures
        res(m, r, t) == t,
    decreases t,
{
    match t {
        TyT::Meta(x) => {
            assert(occurs(t, x));
        },
        TyT::App(h, args) => {
            lemma_ress(m, r, args);
            assert forall|i: int| 0 <= i < args.len() implies #[trigger] res(m, r, args[i])
                == args[i] by {
                assert forall|y: u32| #[trigger] occurs(args[i], y) implies !m.dom().contains(y) by {
                    assert(occurs(t, y));
                }
                lemma_res_id(m, r, args[i]);
            }
            assert(ress(m, r, args) =~= args);
        },
        _ => {},
    }
}

/// Resolving under a larger substitution absorbs resolution under a smaller one.
pub proof fn lemma_res_ext(
    m: Map<u32, TyT>,
    r: spec_fn(u32) -> nat,
    m2: Map<u32, TyT>,
    r2: spec_fn(u32) -> nat,
    t: TyT,
)
    requires
        ranks_ok(m, r),
        ranks_ok(m2, r2),
        m.submap_of(m2),
    ensures
        res(m2, r2, t) == res(m2, r2, res(m, r, t)),
    decreases hgt(m, r, t), t,
{
    match t {
        TyT::Meta(x) => {
            if m.dom().contains(x) {
                assert(m2.dom().contains(x) && m2[x] == m[x]);
                lemma_hgt_le(m, r, m[x], r(x));
                lemma_res_ext(m, r, m2, r2, m[x]);
            }
        },
        TyT::App(h, args) => {
            lemma_ress(m, r, args);
            lemma_ress(m2, r2, args);
            let rs = ress(m, r, args);
            lemma_ress(m2, r2, rs);
            assert forall|i: int| 0 <= i < args.len() implies #[trigger] ress(m2, r2, args)[i]
                == ress(m2, r2, rs)[i] by {
                lemma_hgts_elem(m, r, args, i);
                lemma_res_ext(m, r, m2, r2, args[i]);
            }
            assert(ress(m2, r2, args) =~= ress(m2, r2, rs));
        },
        _ => {},
    }
}

/// Resolution keeps every metavariable that a mentioned metavariable resolves to.
pub proof fn lemma_occurs_res(m: Map<u32, TyT>, r: spec_fn(u32) -> nat, t: TyT, w: u32, x: u32)
    requires
        ranks_ok(m, r),
        occurs(t, w),
        occurs(res(m, r, TyT::Meta(w)), x),
    ensures
        occurs(res(m, r, t), x),
    decreases t,
{
    match t {
        TyT::App(h, args) => {
            let i = choose|i: int| 0 <= i < args.len() && occurs(#[trigger] args[i], w);
            lemma_occurs_res(m, r, args[i], w, x);
            lemma_ress(m, r, args);
            let rs = ress(m, r, args);
            assert(0 <= i < rs.len());
            assert(occurs(rs[i], x));
            assert(res(m, r, t) == TyT::App(h, rs));
            let at = TyT::App(h, rs);
            assert(at->App_1 == rs);
            assert(exists|j: int| 0 <= j < rs.len() && occurs(#[trigger] rs[j], x));
            assert(occurs(at, x));
        },
        _ => {},
    }
}

pub proof fn lemma_hgt_ge(m: Map<u32, TyT>, r: spec_fn(u32) -> nat, t: TyT, w: u32)
    requires
        occurs(t, w),
        m.dom().contains(w),
    ensures
        r(w) + 1 <= hgt(m, r, t),
    decreases t,
{
    match t {
        TyT::App(h, args) => {
            let i = choose|i: int| 0 <= i < args.len() && occurs(#[trigger] args[i], w);
            lemma_hgt_ge(m, r, args[i], w);
            lemma_hgts_elem(m, r, args, i);
        },
        _ => {},
    }
}

/// Binding an unbound metavariable to a term whose resolution does not mention
/// it keeps the substitution acyclic.
pub proof fn lemma_bind_ranks(m: Map<u32, TyT>, r: spec_fn(u32) -> nat, x: u32, t: TyT)
    requires
        ranks_ok(m, r),
        !m.dom().contains(x),
        !occurs(res(m, r, t), x),
    ensures
        acyclic(m.insert(x, t)),
{
    let h = hgt(m, r, t);
    let r2 = |y: u32|
        if y == x {
            h
        } else if occurs(res(m, r, TyT::Meta(y)), x) {
            r(y) + h + 1
        } else {
            r(y)
        };
    let m2 = m.insert(x, t);
    assert forall|z: u32, w: u32|
        #![trigger m2[z], m2.dom().contains(w), r2(w)]
        m2.dom().contains(z) && m2.dom().contains(w) && occurs(m2[z], w) implies r2(w) < r2(z) by {
        if z == x {
            if w == x {
                lemma_occurs_res(m, r, t, x, x);
            } else {
                assert(m.dom().contains(w));
                if occurs(res(m, r, TyT::Meta(w)), x) {
                    lemma_occurs_res(m, r, t, w, x);
                }
                lemma_hgt_ge(m, r, t, w);
            }
        } else {
            assert(m.dom().contains(z) && m2[z] == m[z]);
            assert(res(m, r, TyT::Meta(z)) == res(m, r, m[z]));
            if w == x {
                lemma_occurs_res(m, r, m[z], x, x);
            } else {
                assert(m.dom().contains(w));
                assert(r(w) < r(z));
                if occurs(res(m, r, TyT::Meta(w)), x) {
                    lemma_occurs_res(m, r, m[z], w, x);
                }
            }
        }
    }
    assert(ranks_ok(m2, r2));
}

} // verus!

verus! {

/// A ranking that witnesses acyclicity (when there is one).
pub open spec fn some_rank(m: Map<u32, TyT>) -> spec_fn(u32) -> nat {
    choose|r: spec_fn(u32) -> nat| ranks_ok(m, r)
}

/// Full resolution of `t` under the substitution `m`: every bound
/// metavariable is replaced, transitively, by what it is bound to.
pub open spec fn resolve_t(m: Map<u32, TyT>, t: TyT) -> TyT {
    res(m, some_rank(m), t)
}

/// How resolution unfolds one step.
pub proof fn lemma_resolve_unfold(m: Map<u32, TyT>, t: TyT)
    requires
        acyclic(m),
    ensures
        resolve_t(m, t) == match t {
            TyT::Meta(x) => if m.dom().contains(x) {
                resolve_t(m, m[x])
            } else {
                t
            },
            TyT::App(h, args) => TyT::App(h, Seq::new(args.len(), |i: int| resolve_t(m, args[i]))),
            _ => t,
        },
{
    let r = some_rank(m);
    if let TyT::App(h, args) = t {
        lemma_ress(m, r, args);
        assert(ress(m, r, args) =~= Seq::new(args.len(), |i: int| resolve_t(m, args[i])));
    }
}

/// Resolution leaves no bound metavariable and is idempotent.
pub proof fn lemma_resolve_free(m: Map<u32, TyT>, t: TyT)
    requires
        acyclic(m),
    ensures
        forall|y: u32| #[trigger] occurs(resolve_t(m, t), y) ==> !m.dom().contains(y),
        resolve_t(m, resolve_t(m, t)) == resolve_t(m, t),
{
    let r = some_rank(m);
    lemma_res_free(m, r, t);
    lemma_res_id(m, r, res(m, r, t));
}

/// Terms equal under a substitution stay equal under every acyclic extension of it.
pub proof fn lemma_resolve_ext(m: Map<u32, TyT>, m2: Map<u32, TyT>, t: TyT)
    requires
        acyclic(m),
        acyclic(m2),
        m.submap_of(m2),
    ensures
        resolve_t(m2, t) == resolve_t(m2, resolve_t(m, t)),
{
    lemma_res_ext(m, some_rank(m), m2, some_rank(m2), t);
}

pub proof fn lemma_bind_acyclic(m: Map<u32, TyT>, x: u32, t: TyT)
    requires
        acyclic(m),
        !m.dom().contains(x),
        !occurs(resolve_t(m, t), x),
    ensures
        acyclic(m.insert(x, t)),
{
    lemma_bind_ranks(m, some_rank(m), x, t);
}

/// A substitution keyed by `u32` binds at most 2^32 metavariables.
pub proof fn lemma_dom_bound(m: Map<u32, TyT>)
    requires
        m.dom().finite(),
    ensures
        m.dom().len() <= 0x1_0000_0000,
{
    let full = Set::<u32>::range(0, u32::MAX).insert(u32::MAX);
    <u32 as vstd::set_lib::FiniteRange>::range_properties(0, u32::MAX);
    assert(m.dom().subset_of(full));
    vstd::set_lib::lemma_len_subset(m.dom(), full);
}

} // verus!

verus! {

impl TyTerm {
    /// A structurally identical copy.
    pub fn copy_term(&self) -> (r: Self)
        ensures
            r@ == self@,
        decreases self@,
    {
        match self {
            TyTerm::Named(s) => TyTerm::Named(s.clone()),
            TyTerm::TParam(s) => TyTerm::TParam(s.clone()),
            TyTerm::Meta(m) => TyTerm::Meta(*m),
            TyTerm::Never => TyTerm::Never,
            TyTerm::App { head, args } => {
                proof {
                    lemma_view_terms(args@);
                }
                let mut out: Vec<TyTerm> = Vec::with_capacity(args.len());
                let mut i: usize = 0;
                while i < args.len()
                    invariant
                        self@ == TyT::App(head@, view_terms(args@)),
                        view_terms(args@).len() == args@.len(),
                        forall|j: int| 0 <= j < args@.len() ==> #[trigger] view_terms(args@)[j] == args@[j]@,
                        i <= args.len(),
                        out@.len() == i,
                        forall|j: int| 0 <= j < i ==> (#[trigger] out@[j])@ == args@[j]@,
                    decreases args.len() - i,
                {
                    assert(view_terms(args@)[i as int] == args@[i as int]@);
                    let ghost vs = view_terms(args@);
                    assert(self@->App_1 == vs);
                    assert(decreases_to!(self@ => self@->App_1));
                    assert(decreases_to!(vs => vs[i as int]));
                    assert(decreases_to!(self@ => args@[i as int]@));
                    let c = args[i].copy_term();
                    out.push(c);
                    i = i + 1;
                }
                proof {
                    lemma_view_terms(out@);
                    lemma_view_terms(args@);
                    assert(view_terms(out@) =~= view_terms(args@));
                }
                TyTerm::App { head: head.clone(), args: out }
            },
        }
    }
}

impl Clone for TyTerm {
    fn clone(&self) -> (r: Self)
        ensures
            r@ == self@,
    {
        self.copy_term()
    }
}

/// A type term together with its brand and whether it is a full view.
#[derive(Debug, PartialEq, Eq)]
pub struct TyInfoTerm {
    pub ty: TyTerm,
    pub brand: Option<String>,
    pub view_full: bool,
}

impl TyInfoTerm {
    pub fn unbranded(ty: TyTerm) -> (r: Self)
        ensures
            r.ty == ty,
            r.brand is None,
            !r.view_full,
    {
        TyInfoTerm { ty, brand: None, view_full: false }
    }
}

impl Clone for TyInfoTerm {
    fn clone(&self) -> (r: Self)
        ensures
            r.ty@ == self.ty@,
            r.brand == self.brand,
            r.view_full == self.view_full,
    {
        let brand = match &self.brand {
            Some(b) => Some(b.clone()),
            None => None,
        };
        TyInfoTerm { ty: self.ty.copy_term(), brand, view_full: self.view_full }
    }
}

/// A substitution of metavariables by type terms, kept acyclic.
#[derive(Debug)]
pub struct Subst {
    meta: BTreeMap<u32, TyTerm>,
}

impl View for Subst {
    type V = Map<u32, TyT>;

    closed spec fn view(&self) -> Map<u32, TyT> {
        Map::new(|k: u32| self.meta@.contains_key(k), |k: u32| self.meta@[k]@)
    }
}

impl Subst {
    /// Following bindings always terminates.
    pub open spec fn wf(&self) -> bool {
        acyclic(self@)
    }

    /// A substitution binds finitely many metavariables.
    pub proof fn lemma_dom(&self)
        ensures
            self@.dom().finite(),
            self@.dom().len() <= 0x1_0000_0000,
    {
        assert(self@.dom() =~= self.meta@.dom());
        lemma_dom_bound(self@);
    }

    pub fn bind(&mut self, id: u32, term: TyTerm)
        requires
            acyclic(old(self)@.insert(id, term@)),
        ensures
            final(self).wf(),
            final(self)@ == old(self)@.insert(id, term@),
    {
        let ghost t = term@;
        let ghost old_view = self@;
        self.meta.insert(id, term);
        assert(self@ =~= old_view.insert(id, t));
    }

    pub fn resolve(&self, term: &TyTerm) -> (r: TyTerm)
        requires
            self.wf(),
        ensures
            r@ == resolve_t(self@, term@),
        decreases hgt(self@, some_rank(self@), term@), term@,
    {
        proof {
            lemma_resolve_unfold(self@, term@);
        }
        let ghost m = self@;
        let ghost rk = some_rank(m);
        match term {
            TyTerm::Meta(id) => match self.meta.get(id) {
                None => TyTerm::Meta(*id),
                Some(t) => {
                    proof {
                        assert(m.dom().contains(*id) && m[*id] == t@);
                        lemma_hgt_le(m, rk, t@, rk(*id));
                    }
                    self.resolve(t)
                },
            },
            TyTerm::Named(s) => TyTerm::Named(s.clone()),
            TyTerm::Never => TyTerm::Never,
            TyTerm::TParam(name) => TyTerm::TParam(name.clone()),
            TyTerm::App { head, args } => {
                proof {
                    lemma_view_terms(args@);
                }
                let mut out: Vec<TyTerm> = Vec::with_capacity(args.len());
                let mut i: usize = 0;
                while i < args.len()
                    invariant
                        m == self@,
                        self.wf(),
                        rk == some_rank(m),
                        ranks_ok(m, rk),
                        term@ == TyT::App(head@, view_terms(args@)),
                        view_terms(args@).len() == args@.len(),
                        forall|j: int| 0 <= j < args@.len() ==> #[trigger] view_terms(args@)[j] == args@[j]@,
                        i <= args.len(),
                        out@.len() == i,
                        forall|j: int| 0 <= j < i ==> (#[trigger] out@[j])@ == resolve_t(m, args@[j]@),
                    decreases args.len() - i,
                {
                    proof {
                        lemma_hgts_elem(m, rk, view_terms(args@), i as int);
                        assert(view_terms(args@)[i as int] == args@[i as int]@);
                    }
                    let c = self.resolve(&args[i]);
                    out.push(c);
                    i = i + 1;
                }
                proof {
                    lemma_view_terms(out@);
                    assert(view_terms(out@) =~= Seq::new(
                        view_terms(args@).len(),
                        |j: int| resolve_t(m, view_terms(args@)[j]),
                    ));
                }
                TyTerm::App { head: head.clone(), args: out }
            },
        }
    }
}

impl Default for Subst {
    fn default() -> (s: Self)
        ensures
            s.wf(),
            s@ == Map::<u32, TyT>::empty(),
    {
        let s = Subst { meta: BTreeMap::new() };
        proof {
            let r = |x: u32| 0nat;
            assert(ranks_ok(s@, r));
            assert(s@ =~= Map::<u32, TyT>::empty());
        }
        s
    }
}

} // verus!

verus! {

/// Why two terms failed to unify: the two clashing terms and a reason tag.
#[derive(Clone, Debug, PartialEq, Eq)]
pub struct UnifyError {
    pub lhs: TyTerm,
    pub rhs: TyTerm,
    pub reason: String,
}

/// The outermost constructor of a term.
pub open spec fn kind(t: TyT) -> nat {
    match t {
        TyT::Named(_) => 0,
        TyT::App(_, _) => 1,
        TyT::TParam(_) => 2,
        TyT::Meta(_) => 3,
        TyT::Never => 4,
    }
}

/// `e` reports a clash that no further binding can repair, under the final
/// substitution `m`.
pub open spec fn unify_error_ok(m: Map<u32, TyT>, e: UnifyError) -> bool {
    let l = e.lhs@;
    let r = e.rhs@;
    let why = e.reason@;
    ||| why == "occurs_check"@ && (l matches TyT::Meta(x) && !m.dom().contains(x) && resolve_t(m, r)
        == r && r != l && occurs(r, x))
    ||| why == "named_mismatch"@ && (l matches TyT::Named(p) && r matches TyT::Named(q) && p != q)
    ||| why == "tparam_mismatch"@ && (l matches TyT::TParam(p) && r matches TyT::TParam(q) && p
        != q)
    ||| why == "app_mismatch"@ && (l matches TyT::App(lh, la) && r matches TyT::App(rh, ra) && (lh
        != rh || la.len() != ra.len()))
    ||| why == "mismatch"@ && kind(l) != kind(r) && kind(l) != 3 && kind(r) != 3
}

fn occurs_in_meta(id: u32, t: &TyTerm, subst: &Subst) -> (r: bool)
    requires
        subst.wf(),
    ensures
        r == occurs(resolve_t(subst@, t@), id),
    decreases size(resolve_t(subst@, t@)),
{
    let rt = subst.resolve(t);
    proof {
        lemma_resolve_free(subst@, t@);
        lemma_resolve_unfold(subst@, rt@);
    }
    match rt {
        TyTerm::Meta(mid) => mid == id,
        TyTerm::Named(_) | TyTerm::Never | TyTerm::TParam(_) => false,
        TyTerm::App { head, args } => {
            let ghost m = subst@;
            proof {
                lemma_view_terms(args@);
            }
            let ghost vs = view_terms(args@);
            let mut i: usize = 0;
            while i < args.len()
                invariant
                    m == subst@,
                    subst.wf(),
                    vs == view_terms(args@),
                    vs.len() == args@.len(),
                    forall|j: int| 0 <= j < args@.len() ==> #[trigger] vs[j] == args@[j]@,
                    resolve_t(m, t@) == TyT::App(head@, vs),
                    forall|j: int| 0 <= j < vs.len() ==> resolve_t(m, #[trigger] vs[j]) == vs[j],
                    i <= args.len(),
                    forall|j: int| 0 <= j < i ==> !occurs(#[trigger] vs[j], id),
                decreases args.len() - i,
            {
                proof {
                    lemma_sizes_elem(vs, i as int);
                    assert(vs[i as int] == args@[i as int]@);
                }
                if occurs_in_meta(id, &args[i], subst) {
                    assert(occurs(vs[i as int], id));
                    assert(occurs(TyT::App(head@, vs), id));
                    return true;
                }
                i = i + 1;
            }
            false
        },
    }
}

fn unify_meta(subst: &mut Subst, id: u32, rhs: TyTerm) -> (r: Result<(), UnifyError>)
    requires
        old(subst).wf(),
        !old(subst)@.dom().contains(id),
        resolve_t(old(subst)@, rhs@) == rhs@,
        rhs@ != TyT::Meta(id),
    ensures
        final(subst).wf(),
        r is Ok ==> final(subst)@ == old(subst)@.insert(id, rhs@),
        r matches Err(e) ==> final(subst)@ == old(subst)@ && e.lhs@ == TyT::Meta(id) && e.rhs@
            == rhs@ && e.reason@ == "occurs_check"@ && occurs(rhs@, id),
        r is Err <==> occurs(rhs@, id),
{
    if occurs_in_meta(id, &rhs, subst) {
        return Err(UnifyError { lhs: TyTerm::Meta(id), rhs, reason: "occurs_check".to_string() });
    }
    proof {
        lemma_bind_acyclic(subst@, id, rhs@);
    }
    subst.bind(id, rhs);
    Ok(())
}

} // verus!

verus! {

/// Two resolved terms that clash at their root: neither is a metavariable,
/// they differ, and they are not applications of one head to equally many
/// arguments.
pub open spec fn direct_clash(x: TyT, y: TyT) -> bool {
    &&& !(x is Meta)
    &&& !(y is Meta)
    &&& x != y
    &&& !(x matches TyT::App(hx, xs) && y matches TyT::App(hy, ys) && hx == hy && xs.len() == ys.len())
}

/// `(l, r)` is `(x, y)`, or `(y, x)` when `y` is the metavariable that
/// failed the occurs check, or lies in the first pair of corresponding
/// arguments that differ, reached through applications of one head to
/// equally many arguments.
pub open spec fn clash_in(x: TyT, y: TyT, l: TyT, r: TyT) -> bool
    decreases x,
{
    ||| (l == x && r == y)
    ||| (l == y && r == x && y is Meta)
    ||| match (x, y) {
        (TyT::App(hx, xs), TyT::App(hy, ys)) => hx == hy && xs.len() == ys.len() && exists|i: int|
            0 <= i < xs.len() && clash_in(#[trigger] xs[i], ys[i], l, r) && forall|j: int|
                0 <= j < i ==> xs[j] == ys[j],
        _ => false,
    }
}

/// Terms that clash at their root resolve apart under every acyclic
/// substitution.
proof fn lemma_direct_clash_apart(m2: Map<u32, TyT>, rx: TyT, ry: TyT)
    requires
        acyclic(m2),
        direct_clash(rx, ry),
    ensures
        resolve_t(m2, rx) != resolve_t(m2, ry),
{
    lemma_resolve_unfold(m2, rx);
    lemma_resolve_unfold(m2, ry);
    match (rx, ry) {
        (TyT::App(hx, xs), TyT::App(hy, ys)) => {
            let sx = Seq::new(xs.len(), |i: int| resolve_t(m2, xs[i]));
            let sy = Seq::new(ys.len(), |i: int| resolve_t(m2, ys[i]));
            assert(resolve_t(m2, rx) == TyT::App(hx, sx));
            assert(resolve_t(m2, ry) == TyT::App(hy, sy));
            assert(sx.len() == xs.len() && sy.len() == ys.len());
        },
        (TyT::App(_, _), _) => {
            assert(resolve_t(m2, ry) == ry);
        },
        (_, TyT::App(_, _)) => {
            assert(resolve_t(m2, rx) == rx);
        },
        _ => {
            assert(resolve_t(m2, rx) == rx);
            assert(resolve_t(m2, ry) == ry);
        },
    }
}

/// Terms resolved under `m` that clash at their root stay apart under every
/// acyclic extension of `m`: no further binding unifies them.
pub proof fn lemma_direct_clash_not_unifiable(m: Map<u32, TyT>, m2: Map<u32, TyT>, x: TyT, y: TyT)
    requires
        acyclic(m),
        acyclic(m2),
        m.submap_of(m2),
        direct_clash(resolve_t(m, x), resolve_t(m, y)),
    ensures
        resolve_t(m2, x) != resolve_t(m2, y),
{
    let rx = resolve_t(m, x);
    let ry = resolve_t(m, y);
    lemma_resolve_ext(m, m2, x);
    lemma_resolve_ext(m, m2, y);
    lemma_resolve_unfold(m2, rx);
    lemma_resolve_unfold(m2, ry);
    lemma_resolve_free(m, x);
    lemma_resolve_free(m, y);
    lemma_resolve_unfold(m, rx);
    lemma_resolve_unfold(m, ry);
    match (rx, ry) {
        (TyT::App(hx, xs), TyT::App(hy, ys)) => {
            let sx = Seq::new(xs.len(), |i: int| resolve_t(m2, xs[i]));
            let sy = Seq::new(ys.len(), |i: int| resolve_t(m2, ys[i]));
            assert(resolve_t(m2, rx) == TyT::App(hx, sx));
            assert(resolve_t(m2, ry) == TyT::App(hy, sy));
            assert(sx.len() == xs.len() && sy.len() == ys.len());
        },
        (TyT::App(_, _), _) => {
            assert(resolve_t(m2, ry) == ry);
        },
        (_, TyT::App(_, _)) => {
            assert(resolve_t(m2, rx) == rx);
        },
        _ => {
            assert(resolve_t(m2, rx) == rx);
            assert(resolve_t(m2, ry) == ry);
        },
    }
}

/// A term in which `v` occurs resolves, under any acyclic substitution, to
/// a term at least as large as what `v` resolves to.
proof fn lemma_occurs_size(m2: Map<u32, TyT>, t: TyT, v: u32)
    requires
        acyclic(m2),
        occurs(t, v),
    ensures
        size(resolve_t(m2, t)) >= size(resolve_t(m2, TyT::Meta(v))),
    decreases t,
{
    match t {
        TyT::App(h, args) => {
            let i = choose|i: int| 0 <= i < args.len() && occurs(#[trigger] args[i], v);
            lemma_occurs_size(m2, args[i], v);
            lemma_resolve_unfold(m2, t);
            let rs = Seq::new(args.len(), |j: int| resolve_t(m2, args[j]));
            assert(rs[i] == resolve_t(m2, args[i]));
            lemma_sizes_elem(rs, i);
        },
        _ => {},
    }
}

/// The clash an error of `unify` reports cannot be repaired: no acyclic
/// extension of the substitution makes its two sides equal.
proof fn lemma_error_not_unifiable(m: Map<u32, TyT>, m2: Map<u32, TyT>, e: UnifyError)
    requires
        acyclic(m),
        acyclic(m2),
        m.submap_of(m2),
        unify_error_ok(m, e),
    ensures
        resolve_t(m2, e.lhs@) != resolve_t(m2, e.rhs@),
{
    let l = e.lhs@;
    let r = e.rhs@;
    lemma_resolve_unfold(m2, l);
    lemma_resolve_unfold(m2, r);
    if e.reason@ == "occurs_check"@ && (l matches TyT::Meta(x) && !m.dom().contains(x) && resolve_t(m, r) == r
        && r != l && occurs(r, x)) {
        let x = l->Meta_0;
        lemma_resolve_ext(m, m2, r);
        match r {
            TyT::App(h, args) => {
                let i = choose|i: int| 0 <= i < args.len() && occurs(#[trigger] args[i], x);
                lemma_occurs_size(m2, args[i], x);
                let rs = Seq::new(args.len(), |j: int| resolve_t(m2, args[j]));
                assert(resolve_t(m2, r) == TyT::App(h, rs));
                assert(rs[i] == resolve_t(m2, args[i]));
                lemma_sizes_elem(rs, i);
                assert(size(resolve_t(m2, r)) > size(resolve_t(m2, l)));
            },
            TyT::Meta(w) => {
                assert(w == x);
            },
            _ => {},
        }
    } else {
        match (l, r) {
            (TyT::App(hx, xs), TyT::App(hy, ys)) => {
                let sx = Seq::new(xs.len(), |i: int| resolve_t(m2, xs[i]));
                let sy = Seq::new(ys.len(), |i: int| resolve_t(m2, ys[i]));
                assert(sx.len() == xs.len() && sy.len() == ys.len());
            },
            _ => {},
        }
    }
}

/// Terms that clash at corresponding places stay apart wherever those
/// places stay apart.
proof fn lemma_clash_apart(m2: Map<u32, TyT>, x: TyT, y: TyT, l: TyT, r: TyT)
    requires
        acyclic(m2),
        clash_in(x, y, l, r),
        resolve_t(m2, l) != resolve_t(m2, r),
    ensures
        resolve_t(m2, x) != resolve_t(m2, y),
    decreases x,
{
    if (l == x && r == y) || (l == y && r == x) {
    } else {
        match (x, y) {
            (TyT::App(hx, xs), TyT::App(hy, ys)) => {
                let i = choose|i: int| 0 <= i < xs.len() && clash_in(#[trigger] xs[i], ys[i], l, r);
                lemma_clash_apart(m2, xs[i], ys[i], l, r);
                lemma_resolve_unfold(m2, x);
                lemma_resolve_unfold(m2, y);
                let sx = Seq::new(xs.len(), |j: int| resolve_t(m2, xs[j]));
                let sy = Seq::new(ys.len(), |j: int| resolve_t(m2, ys[j]));
                assert(sx[i] != sy[i]);
            },
            _ => {},
        }
    }
}

/// When `unify` fails, no acyclic extension of the substitution it leaves
/// makes the two terms equal: the clash it reports sits at corresponding
/// places of both and cannot be repaired.
pub proof fn lemma_unify_error_final(m: Map<u32, TyT>, m2: Map<u32, TyT>, a: TyT, b: TyT, e: UnifyError)
    requires
        acyclic(m),
        acyclic(m2),
        m.submap_of(m2),
        unify_error_ok(m, e),
        clash_in(resolve_t(m, a), resolve_t(m, b), e.lhs@, e.rhs@),
    ensures
        resolve_t(m2, a) != resolve_t(m2, b),
{
    lemma_error_not_unifiable(m, m2, e);
    lemma_clash_apart(m2, resolve_t(m, a), resolve_t(m, b), e.lhs@, e.rhs@);
    lemma_resolve_ext(m, m2, a);
    lemma_resolve_ext(m, m2, b);
}

/// `m2` is an instance of `m`: resolving under `m` first changes nothing
/// that `m2` resolves.
pub open spec fn is_instance(m2: Map<u32, TyT>, m: Map<u32, TyT>) -> bool {
    forall|t: TyT| #[trigger] resolve_t(m2, resolve_t(m, t)) == resolve_t(m2, t)
}

proof fn lemma_resolve_id(m: Map<u32, TyT>, t: TyT)
    requires
        acyclic(m),
        forall|y: u32| #[trigger] occurs(t, y) ==> !m.dom().contains(y),
    ensures
        resolve_t(m, t) == t,
{
    lemma_res_id(m, some_rank(m), t);
}

/// Binding an unbound `x` to a resolved `rb` it does not occur in keeps every
/// instance that already equates `x` and `rb`.
proof fn lemma_bind_instance_term(
    m: Map<u32, TyT>,
    m2: Map<u32, TyT>,
    x: u32,
    rb: TyT,
    u: TyT,
)
    requires
        acyclic(m),
        acyclic(m2),
        acyclic(m.insert(x, rb)),
        !m.dom().contains(x),
        resolve_t(m, rb) == rb,
        !occurs(rb, x),
        resolve_t(m2, TyT::Meta(x)) == resolve_t(m2, rb),
        resolve_t(m, u) == u,
    ensures
        resolve_t(m2, resolve_t(m.insert(x, rb), u)) == resolve_t(m2, u),
    decreases u,
{
    let m1 = m.insert(x, rb);
    lemma_resolve_free(m, u);
    lemma_resolve_unfold(m1, u);
    match u {
        TyT::Meta(y) => {
            assert(occurs(u, y));
            if y == x {
                lemma_resolve_free(m, rb);
                assert forall|z: u32| #[trigger] occurs(rb, z) implies !m1.dom().contains(z) by {
                    if z == x {
                    }
                }
                lemma_resolve_id(m1, rb);
            }
        },
        TyT::App(h, args) => {
            lemma_resolve_unfold(m, u);
            assert forall|i: int| 0 <= i < args.len() implies resolve_t(m2, resolve_t(m1, #[trigger] args[i]))
                == resolve_t(m2, args[i]) by {
                let ms = Seq::new(args.len(), |j: int| resolve_t(m, args[j]));
                assert(ms[i] == resolve_t(m, args[i]));
                assert(ms =~= args) by {
                    assert(TyT::App(h, ms) == u);
                }
                lemma_bind_instance_term(m, m2, x, rb, args[i]);
            }
            let r1 = Seq::new(args.len(), |j: int| resolve_t(m1, args[j]));
            lemma_resolve_unfold(m2, TyT::App(h, r1));
            lemma_resolve_unfold(m2, u);
            assert(Seq::new(r1.len(), |j: int| resolve_t(m2, r1[j])) =~= Seq::new(
                args.len(),
                |j: int| resolve_t(m2, args[j]),
            ));
        },
        _ => {},
    }
}

/// The binding step keeps every unifying instance an instance.
proof fn lemma_bind_instance(m: Map<u32, TyT>, m2: Map<u32, TyT>, x: u32, rb: TyT)
    requires
        acyclic(m),
        acyclic(m2),
        acyclic(m.insert(x, rb)),
        !m.dom().contains(x),
        resolve_t(m, rb) == rb,
        !occurs(rb, x),
        resolve_t(m2, TyT::Meta(x)) == resolve_t(m2, rb),
        is_instance(m2, m),
    ensures
        is_instance(m2, m.insert(x, rb)),
{
    let m1 = m.insert(x, rb);
    assert forall|t: TyT| #[trigger] resolve_t(m2, resolve_t(m1, t)) == resolve_t(m2, t) by {
        let u = resolve_t(m, t);
        lemma_resolve_free(m, t);
        assert(m.submap_of(m1));
        lemma_resolve_ext(m, m1, t);
        lemma_bind_instance_term(m, m2, x, rb, u);
        assert(resolve_t(m2, resolve_t(m, t)) == resolve_t(m2, t));
    }
}

/// A metavariable never resolves to the same term as a strictly larger term
/// it occurs in.
proof fn lemma_occurs_apart(m2: Map<u32, TyT>, x: u32, rb: TyT)
    requires
        acyclic(m2),
        occurs(rb, x),
        rb != TyT::Meta(x),
    ensures
        resolve_t(m2, TyT::Meta(x)) != resolve_t(m2, rb),
{
    match rb {
        TyT::App(h, args) => {
            let i = choose|i: int| 0 <= i < args.len() && occurs(#[trigger] args[i], x);
            lemma_occurs_size(m2, args[i], x);
            lemma_resolve_unfold(m2, rb);
            let rs = Seq::new(args.len(), |j: int| resolve_t(m2, args[j]));
            assert(rs[i] == resolve_t(m2, args[i]));
            lemma_sizes_elem(rs, i);
        },
        _ => {},
    }
}

/// `m2` is an acyclic instance of `m` that makes `a` and `b` equal.
pub open spec fn unifier_of(m2: Map<u32, TyT>, m: Map<u32, TyT>, a: TyT, b: TyT) -> bool {
    acyclic(m2) && is_instance(m2, m) && resolve_t(m2, a) == resolve_t(m2, b)
}

proof fn lemma_unifier_args(m2: Map<u32, TyT>, m: Map<u32, TyT>, a: TyT, b: TyT, h: Seq<char>, va: Seq<TyT>, vb: Seq<TyT>, i: int)
    requires
        unifier_of(m2, m, a, b),
        resolve_t(m, a) == TyT::App(h, va),
        resolve_t(m, b) == TyT::App(h, vb),
        va.len() == vb.len(),
        0 <= i < va.len(),
    ensures
        resolve_t(m2, va[i]) == resolve_t(m2, vb[i]),
{
    assert(resolve_t(m2, resolve_t(m, a)) == resolve_t(m2, a));
    assert(resolve_t(m2, resolve_t(m, b)) == resolve_t(m2, b));
    lemma_resolve_unfold(m2, TyT::App(h, va));
    lemma_resolve_unfold(m2, TyT::App(h, vb));
    let sa = Seq::new(va.len(), |j: int| resolve_t(m2, va[j]));
    let sb = Seq::new(vb.len(), |j: int| resolve_t(m2, vb[j]));
    assert(TyT::App(h, sa) == TyT::App(h, sb));
    assert(sa[i] == sb[i]);
}

/// What one call of `unify` on `a` and `b` promises, from the substitution
/// `m0` to `m1` with the result `r`: the clauses of its contract.
#[verifier::opaque]
pub open spec fn unify_post(m0: Map<u32, TyT>, a: TyT, b: TyT, m1: Map<u32, TyT>, r: Result<(), UnifyError>) -> bool {
    &&& m0.submap_of(m1)
    &&& r is Ok ==> resolve_t(m1, a) == resolve_t(m1, b)
    &&& r matches Err(e) ==> unify_error_ok(m1, e)
    &&& forall|m2: Map<u32, TyT>| #[trigger] unifier_of(m2, m0, a, b) ==> r is Ok && is_instance(m2, m1)
    &&& r matches Err(e) ==> clash_in(resolve_t(m1, a), resolve_t(m1, b), e.lhs@, e.rhs@)
    &&& ({
        let ra = resolve_t(m0, a);
        let rb = resolve_t(m0, b);
        &&& ra == rb ==> r is Ok && m1 == m0
        &&& ra matches TyT::Meta(x) ==> (ra != rb ==> if occurs(rb, x) {
            (r matches Err(e) && e.lhs@ == ra && e.rhs@ == rb && e.reason@ == "occurs_check"@) && m1 == m0
        } else {
            r is Ok && m1 == m0.insert(x, rb)
        })
        &&& !(ra is Meta) ==> (rb matches TyT::Meta(x) ==> if occurs(ra, x) {
            (r matches Err(e) && e.lhs@ == rb && e.rhs@ == ra && e.reason@ == "occurs_check"@) && m1 == m0
        } else {
            r is Ok && m1 == m0.insert(x, ra)
        })
        &&& direct_clash(ra, rb) ==> (r matches Err(e) && e.lhs@ == ra && e.rhs@ == rb) && m1 == m0
    })
}

/// `ms` holds the substitution before each unification of corresponding
/// arguments `xs[q]` and `ys[q]`, in order, and after the last: each step
/// is a call of `unify` and succeeds but the last when `err` holds its
/// failure; no argument after that one was unified, and without a failure
/// every pair was.
pub open spec fn args_trace(xs: Seq<TyT>, ys: Seq<TyT>, ms: Seq<Map<u32, TyT>>, err: Option<UnifyError>) -> bool {
    let n = ms.len() - 1;
    &&& 1 <= ms.len() <= xs.len() + 1
    &&& forall|q: int|
        #![trigger ms[q]]
        0 <= q < n ==> unify_post(
            ms[q],
            xs[q],
            ys[q],
            ms[q + 1],
            if q == n - 1 && err is Some {
                Err::<(), UnifyError>(err->0)
            } else {
                Ok::<(), UnifyError>(())
            },
        )
    &&& err is None ==> n == xs.len()
    &&& err is Some ==> n >= 1
}

/// A trace of successful steps extended by one more call of `unify`.
proof fn lemma_trace_push(
    ms: Seq<Map<u32, TyT>>,
    xs: Seq<TyT>,
    ys: Seq<TyT>,
    i: int,
    m1: Map<u32, TyT>,
    step: Result<(), UnifyError>,
)
    requires
        0 <= i,
        ms.len() == i + 1,
        forall|q: int|
            #![trigger ms[q]]
            0 <= q < i ==> unify_post(ms[q], xs[q], ys[q], ms[q + 1], Ok::<(), UnifyError>(())),
        unify_post(ms[i], xs[i], ys[i], m1, step),
    ensures
        forall|q: int|
            #![trigger ms.push(m1)[q]]
            0 <= q < i + 1 ==> unify_post(
                ms.push(m1)[q],
                xs[q],
                ys[q],
                ms.push(m1)[q + 1],
                if q == i && step is Err {
                    step
                } else {
                    Ok::<(), UnifyError>(())
                },
            ),
{
    let ms1 = ms.push(m1);
    assert forall|q: int|
        #![trigger ms1[q]]
        0 <= q < i + 1 implies unify_post(
        ms1[q],
        xs[q],
        ys[q],
        ms1[q + 1],
        if q == i && step is Err {
            step
        } else {
            Ok::<(), UnifyError>(())
        },
    ) by {
        assert(ms1[q] == ms[q]);
        if q < i {
            assert(ms1[q + 1] == ms[q + 1]);
        } else {
            assert(ms1[q + 1] == m1);
            if step is Ok {
                let u: () = step->Ok_0;
                assert(step == Ok::<(), UnifyError>(u));
            }
        }
    }
}

/// `unify` fails only on terms that no instance of the substitution unifies.
/// Applications of one head to equally many arguments are unified argument
/// by argument, from the first, up to the first failure.
#[verifier::spinoff_prover]
#[verifier::rlimit(60)]
pub fn unify(subst: &mut Subst, a: &TyTerm, b: &TyTerm) -> (r: Result<(), UnifyError>)
    requires
        old(subst).wf(),
    ensures
        final(subst).wf(),
        old(subst)@.submap_of(final(subst)@),
        r is Ok ==> resolve_t(final(subst)@, a@) == resolve_t(final(subst)@, b@),
        r matches Err(e) ==> unify_error_ok(final(subst)@, e),
        forall|m2: Map<u32, TyT>| #[trigger] unifier_of(m2, old(subst)@, a@, b@) ==> r is Ok && is_instance(
            m2,
            final(subst)@,
        ),
        r matches Err(e) ==> clash_in(resolve_t(final(subst)@, a@), resolve_t(final(subst)@, b@), e.lhs@, e.rhs@),
        ({
            let ra = resolve_t(old(subst)@, a@);
            let rb = resolve_t(old(subst)@, b@);
            &&& ra == rb ==> r is Ok && final(subst)@ == old(subst)@
            &&& ra matches TyT::Meta(x) ==> (ra != rb ==> if occurs(rb, x) {
                (r matches Err(e) && e.lhs@ == ra && e.rhs@ == rb && e.reason@ == "occurs_check"@)
                    && final(subst)@ == old(subst)@
            } else {
                r is Ok && final(subst)@ == old(subst)@.insert(x, rb)
            })
            &&& !(ra is Meta) ==> (rb matches TyT::Meta(x) ==> if occurs(ra, x) {
                (r matches Err(e) && e.lhs@ == rb && e.rhs@ == ra && e.reason@ == "occurs_check"@)
                    && final(subst)@ == old(subst)@
            } else {
                r is Ok && final(subst)@ == old(subst)@.insert(x, ra)
            })
            &&& direct_clash(ra, rb) ==> (r matches Err(e) && e.lhs@ == ra && e.rhs@ == rb) && final(subst)@
                == old(subst)@
        }),
        ({
            let ra = resolve_t(old(subst)@, a@);
            let rb = resolve_t(old(subst)@, b@);
            match (ra, rb) {
                (TyT::App(h, xs), TyT::App(h2, ys)) => h == h2 && xs.len() == ys.len() ==> exists|
                    ms: Seq<Map<u32, TyT>>,
                    err: Option<UnifyError>,
                |
                    #![trigger args_trace(xs, ys, ms, err)]
                    args_trace(xs, ys, ms, err) && ms[0] == old(subst)@ && ms.last() == final(subst)@ && match err {
                        None => r is Ok,
                        Some(e) => r == Err::<(), UnifyError>(e),
                    },
                _ => true,
            }
        }),
    decreases 0x1_0000_0000 - subst@.dom().len(), size(resolve_t(subst@, a@)) + size(
        resolve_t(subst@, b@),
    ),
{
    let ghost m0 = subst@;
    let ghost a0 = a@;
    let ghost b0 = b@;
    proof {
        subst.lemma_dom();
        lemma_resolve_free(m0, a0);
        lemma_resolve_free(m0, b0);
    }
    let ra = subst.resolve(a);
    let rb = subst.resolve(b);
    proof {
        lemma_resolve_unfold(m0, ra@);
        lemma_resolve_unfold(m0, rb@);
        if direct_clash(ra@, rb@) {
            assert forall|m2: Map<u32, TyT>| #[trigger] unifier_of(m2, m0, a0, b0) implies false by {
                assert(resolve_t(m2, resolve_t(m0, a0)) == resolve_t(m2, a0));
                assert(resolve_t(m2, resolve_t(m0, b0)) == resolve_t(m2, b0));
                lemma_direct_clash_apart(m2, ra@, rb@);
            }
        }
    }
    match (ra, rb) {
        (TyTerm::Meta(id), TyTerm::Meta(id2)) if id == id2 => Ok(()),
        (TyTerm::Meta(id), other) => {
            proof {
                assert(occurs(TyT::Meta(id), id));
            }
            let ghost o = other@;
            let r = unify_meta(subst, id, other);
            proof {
                if r is Ok {
                    lemma_resolve_ext(m0, subst@, a0);
                    lemma_resolve_ext(m0, subst@, b0);
                    lemma_resolve_unfold(subst@, TyT::Meta(id));
                }
                assert forall|m2: Map<u32, TyT>| #[trigger] unifier_of(m2, m0, a0, b0) implies r is Ok
                    && is_instance(m2, subst@) by {
                    assert(resolve_t(m2, resolve_t(m0, a0)) == resolve_t(m2, a0));
                    assert(resolve_t(m2, resolve_t(m0, b0)) == resolve_t(m2, b0));
                    if occurs(o, id) {
                        lemma_occurs_apart(m2, id, o);
                    } else {
                        lemma_bind_instance(m0, m2, id, o);
                    }
                }
            }
            r
        },
        (other, TyTerm::Meta(id)) => {
            proof {
                assert(occurs(TyT::Meta(id), id));
            }
            let ghost o = other@;
            let r = unify_meta(subst, id, other);
            proof {
                if r is Ok {
                    lemma_resolve_ext(m0, subst@, a0);
                    lemma_resolve_ext(m0, subst@, b0);
                    lemma_resolve_unfold(subst@, TyT::Meta(id));
                }
                assert forall|m2: Map<u32, TyT>| #[trigger] unifier_of(m2, m0, a0, b0) implies r is Ok
                    && is_instance(m2, subst@) by {
                    assert(resolve_t(m2, resolve_t(m0, a0)) == resolve_t(m2, a0));
                    assert(resolve_t(m2, resolve_t(m0, b0)) == resolve_t(m2, b0));
                    if occurs(o, id) {
                        lemma_occurs_apart(m2, id, o);
                    } else {
                        lemma_bind_instance(m0, m2, id, o);
                    }
                }
            }
            r
        },
        (TyTerm::Never, TyTerm::Never) => Ok(()),
        (TyTerm::Named(x), TyTerm::Named(y)) => {
            if x == y {
                Ok(())
            } else {
                Err(
                    UnifyError {
                        lhs: TyTerm::Named(x),
                        rhs: TyTerm::Named(y),
                        reason: "named_mismatch".to_string(),
                    },
                )
            }
        },
        (TyTerm::TParam(x), TyTerm::TParam(y)) => {
            if x == y {
                Ok(())
            } else {
                Err(
                    UnifyError {
                        lhs: TyTerm::TParam(x),
                        rhs: TyTerm::TParam(y),
                        reason: "tparam_mismatch".to_string(),
                    },
                )
            }
        },
        (TyTerm::App { head: ah, args: aa }, TyTerm::App { head: bh, args: ba }) => {
            if ah != bh || aa.len() != ba.len() {
                proof {
                    lemma_view_terms(aa@);
                    lemma_view_terms(ba@);
                }
                return Err(
                    UnifyError {
                        lhs: TyTerm::App { head: ah, args: aa },
                        rhs: TyTerm::App { head: bh, args: ba },
                        reason: "app_mismatch".to_string(),
                    },
                );
            }
            proof {
                lemma_view_terms(aa@);
                lemma_view_terms(ba@);
            }
            let ghost va = view_terms(aa@);
            let ghost vb = view_terms(ba@);
            let ghost mut ms: Seq<Map<u32, TyT>> = seq![m0];
            let mut i: usize = 0;
            while i < aa.len()
                invariant
                    ms.len() == i + 1,
                    ms[0] == m0,
                    ms[i as int] == subst@,
                    forall|q: int|
                        #![trigger ms[q]]
                        0 <= q < i ==> unify_post(ms[q], va[q], vb[q], ms[q + 1], Ok::<(), UnifyError>(())),
                    aa.len() == ba.len(),
                    va == view_terms(aa@),
                    vb == view_terms(ba@),
                    va.len() == aa@.len(),
                    vb.len() == ba@.len(),
                    forall|j: int| 0 <= j < aa@.len() ==> #[trigger] va[j] == aa@[j]@,
                    forall|j: int| 0 <= j < ba@.len() ==> #[trigger] vb[j] == ba@[j]@,
                    acyclic(m0),
                    m0.dom().finite(),
                    m0.dom().len() <= 0x1_0000_0000,
                    old(subst)@ == m0,
                    a@ == a0,
                    b@ == b0,
                    resolve_t(m0, a0) == TyT::App(ah@, va),
                    resolve_t(m0, b0) == TyT::App(bh@, vb),
                    ah@ == bh@,
                    forall|j: int| 0 <= j < va.len() ==> resolve_t(m0, #[trigger] va[j]) == va[j],
                    forall|j: int| 0 <= j < vb.len() ==> resolve_t(m0, #[trigger] vb[j]) == vb[j],
                    subst.wf(),
                    m0.submap_of(subst@),
                    subst@ == m0 || subst@.dom().len() > m0.dom().len(),
                    i <= aa.len(),
                    forall|j: int| 0 <= j < i ==> resolve_t(subst@, #[trigger] va[j]) == resolve_t(
                        subst@,
                        vb[j],
                    ),
                    va == vb ==> subst@ == m0,
                    forall|m2: Map<u32, TyT>| #[trigger] unifier_of(m2, m0, a0, b0) ==> is_instance(m2, subst@),
                decreases aa.len() - i,
            {
                let ghost mi = subst@;
                proof {
                    subst.lemma_dom();
                    assert(va[i as int] == aa@[i as int]@);
                    assert(vb[i as int] == ba@[i as int]@);
                    if mi != m0 {
                        assert(mi.dom().len() > m0.dom().len());
                    } else {
                        lemma_sizes_elem(va, i as int);
                        lemma_sizes_elem(vb, i as int);
                        assert(resolve_t(mi, aa@[i as int]@) == va[i as int]);
                        assert(resolve_t(mi, ba@[i as int]@) == vb[i as int]);
                        assert(size(resolve_t(m0, a0)) == 1 + sizes(va));
                        assert(size(resolve_t(m0, b0)) == 1 + sizes(vb));
                        assert(size(resolve_t(mi, aa@[i as int]@)) + size(resolve_t(mi, ba@[i as int]@))
                            < size(resolve_t(m0, a0)) + size(resolve_t(m0, b0)));
                    }
                }
                let step = unify(subst, &aa[i], &ba[i]);
                let ghost ms1 = ms.push(subst@);
                proof {
                    assert(unify_post(mi, va[i as int], vb[i as int], subst@, step)) by {
                        reveal(unify_post);
                    }
                    vstd::map_lib::lemma_submap_of_trans(m0, mi, subst@);
                    assert forall|m2: Map<u32, TyT>| #[trigger] unifier_of(m2, m0, a0, b0) implies step is Ok
                        && is_instance(m2, subst@) by {
                        lemma_unifier_args(m2, m0, a0, b0, ah@, va, vb, i as int);
                        assert(unifier_of(m2, mi, aa@[i as int]@, ba@[i as int]@));
                    }
                }
                if step.is_err() {
                    proof {
                        let mf = subst@;
                        subst.lemma_dom();
                        lemma_resolve_ext(m0, mf, a0);
                        lemma_resolve_ext(m0, mf, b0);
                        lemma_resolve_unfold(mf, TyT::App(ah@, va));
                        lemma_resolve_unfold(mf, TyT::App(bh@, vb));
                        let xs = Seq::new(va.len(), |j: int| resolve_t(mf, va[j]));
                        let ys = Seq::new(vb.len(), |j: int| resolve_t(mf, vb[j]));
                        assert(resolve_t(mf, a0) == TyT::App(ah@, xs));
                        assert(resolve_t(mf, b0) == TyT::App(bh@, ys));
                        assert(xs[i as int] == resolve_t(mf, aa@[i as int]@));
                        assert(ys[i as int] == resolve_t(mf, ba@[i as int]@));
                        let e = step->Err_0;
                        assert(clash_in(xs[i as int], ys[i as int], e.lhs@, e.rhs@));
                        assert forall|j: int| 0 <= j < i implies xs[j] == ys[j] by {
                            lemma_resolve_ext(mi, mf, va[j]);
                            lemma_resolve_ext(mi, mf, vb[j]);
                        }
                        assert(clash_in(TyT::App(ah@, xs), TyT::App(bh@, ys), e.lhs@, e.rhs@));
                        lemma_trace_push(ms, va, vb, i as int, subst@, step);
                        assert(args_trace(va, vb, ms1, Some(e)));
                    }
                    return step;
                }
                proof {
                    lemma_trace_push(ms, va, vb, i as int, subst@, step);
                    ms = ms1;
                }
                proof {
                    subst.lemma_dom();
                    vstd::set_lib::lemma_len_subset(m0.dom(), subst@.dom());
                    if subst@.dom().len() == m0.dom().len() {
                        vstd::set_lib::lemma_subset_equality(m0.dom(), subst@.dom());
                        assert(subst@ =~= m0);
                    }
                    assert forall|j: int| 0 <= j < i + 1 implies resolve_t(
                        subst@,
                        #[trigger] va[j],
                    ) == resolve_t(subst@, vb[j]) by {
                        if j < i {
                            lemma_resolve_ext(mi, subst@, va[j]);
                            lemma_resolve_ext(mi, subst@, vb[j]);
                        }
                    }
                }
                i = i + 1;
            }
            proof {
                let mf = subst@;
                lemma_resolve_ext(m0, mf, a0);
                lemma_resolve_ext(m0, mf, b0);
                lemma_resolve_unfold(mf, TyT::App(ah@, va));
                lemma_resolve_unfold(mf, TyT::App(bh@, vb));
                assert(Seq::new(va.len(), |j: int| resolve_t(mf, va[j])) =~= Seq::new(
                    vb.len(),
                    |j: int| resolve_t(mf, vb[j]),
                ));
                assert(args_trace(va, vb, ms, None));
            }
            Ok(())
        },
        (lhs, rhs) => {
            Err(UnifyError { lhs, rhs, reason: "mismatch".to_string() })
        },
    }
}

} // verus!

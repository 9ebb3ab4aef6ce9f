//! The x07AST data the typechecker reads: expressions, type references and
//! the declarations of a file.

use vstd::prelude::*;

verus! {

/// An x07AST expression; `ptr` is its JSON pointer in the source document.
#[derive(Debug, PartialEq, Eq)]
pub enum Expr {
    Int { value: i32, ptr: String },
    Ident { name: String, ptr: String },
    List { items: Vec<Expr>, ptr: String },
}

/// The mathematical form of an expression.
pub enum ExprV {
    Int(i32, Seq<char>),
    Ident(Seq<char>, Seq<char>),
    List(Seq<ExprV>, Seq<char>),
}

pub open spec fn view_expr(e: Expr) -> ExprV
    decreases e, 0nat,
{
    match e {
        Expr::Int { value, ptr } => ExprV::Int(value, ptr@),
        Expr::Ident { name, ptr } => ExprV::Ident(name@, ptr@),
        Expr::List { items, ptr } => ExprV::List(view_exprs(items@), ptr@),
    }
}

pub open spec fn view_exprs(s: Seq<Expr>) -> Seq<ExprV>
    decreases s, 1nat,
{
    if s.len() == 0 {
        Seq::empty()
    } else {
        seq![view_expr(s[0])] + view_exprs(s.drop_first())
    }
}

impl View for Expr {
    type V = ExprV;

    open spec fn view(&self) -> ExprV {
        view_expr(*self)
    }
}

pub proof fn lemma_view_exprs(s: Seq<Expr>)
    ensures
        view_exprs(s).len() == s.len(),
        forall|i: int| 0 <= i < s.len() ==> #[trigger] view_exprs(s)[i] == view_expr(s[i]),
    decreases s.len(),
{
    if s.len() > 0 {
        lemma_view_exprs(s.drop_first());
        assert forall|i: int| 0 <= i < s.len() implies #[trigger] view_exprs(s)[i] == view_expr(
            s[i],
        ) by {
            if i > 0 {
                assert(s.drop_first()[i - 1] == s[i]);
            }
        }
    }
}

/// The pointer of an expression.
pub open spec fn expr_ptr(e: ExprV) -> Seq<char> {
    match e {
        ExprV::Int(_, p) => p,
        ExprV::Ident(_, p) => p,
        ExprV::List(_, p) => p,
    }
}

/// The identifier an expression is, if it is one.
pub open spec fn expr_ident(e: ExprV) -> Option<Seq<char>> {
    match e {
        ExprV::Ident(n, _) => Some(n),
        _ => None,
    }
}

/// The head identifier of a list expression's items.
pub open spec fn head_ident(items: Seq<ExprV>) -> Option<Seq<char>> {
    if items.len() > 0 {
        expr_ident(items[0])
    } else {
        None
    }
}

impl Expr {
    pub fn ptr(&self) -> (r: &str)
        ensures
            r@ == expr_ptr(self@),
    {
        match self {
            Expr::Int { ptr, .. } => ptr.as_str(),
            Expr::Ident { ptr, .. } => ptr.as_str(),
            Expr::List { ptr, .. } => ptr.as_str(),
        }
    }

    pub fn as_ident(&self) -> (r: Option<&str>)
        ensures
            match r {
                Some(n) => expr_ident(self@) == Some(n@),
                None => expr_ident(self@) is None,
            },
    {
        match self {
            Expr::Ident { name, .. } => Some(name.as_str()),
            _ => None,
        }
    }

    /// A structurally identical copy.
    pub fn copy_expr(&self) -> (r: Expr)
        ensures
            r@ == self@,
        decreases self@,
    {
        match self {
            Expr::Int { value, ptr } => Expr::Int { value: *value, ptr: ptr.clone() },
            Expr::Ident { name, ptr } => Expr::Ident { name: name.clone(), ptr: ptr.clone() },
            Expr::List { items, ptr } => {
                proof {
                    lemma_view_exprs(items@);
                }
                let mut out: Vec<Expr> = Vec::with_capacity(items.len());
                let mut i: usize = 0;
                while i < items.len()
                    invariant
                        self@ == ExprV::List(view_exprs(items@), ptr@),
                        view_exprs(items@).len() == items@.len(),
                        forall|j: int| 0 <= j < items@.len() ==> #[trigger] view_exprs(items@)[j]
                            == items@[j]@,
                        i <= items.len(),
                        out@.len() == i,
                        forall|j: int| 0 <= j < i ==> (#[trigger] out@[j])@ == items@[j]@,
                    decreases items.len() - i,
                {
                    proof {
                        let vs = view_exprs(items@);
                        assert(vs[i as int] == items@[i as int]@);
                        assert(self@->List_0 == vs);
                        assert(decreases_to!(self@ => self@->List_0));
                        assert(decreases_to!(vs => vs[i as int]));
                    }
                    let c = items[i].copy_expr();
                    out.push(c);
                    i = i + 1;
                }
                proof {
                    lemma_view_exprs(out@);
                    assert(view_exprs(out@) =~= view_exprs(items@));
                }
                Expr::List { items: out, ptr: ptr.clone() }
            },
        }
    }
}

impl Clone for Expr {
    fn clone(&self) -> (r: Self)
        ensures
            r@ == self@,
    {
        self.copy_expr()
    }
}

/// A type reference in a signature.
#[derive(Debug, PartialEq, Eq)]
pub enum TypeRef {
    Named(String),
    Var(String),
    App { head: String, args: Vec<TypeRef> },
}

/// The mathematical form of a type reference.
pub enum TypeRefV {
    Named(Seq<char>),
    Var(Seq<char>),
    App(Seq<char>, Seq<TypeRefV>),
}

pub open spec fn view_type_ref(t: TypeRef) -> TypeRefV
    decreases t, 0nat,
{
    match t {
        TypeRef::Named(s) => TypeRefV::Named(s@),
        TypeRef::Var(s) => TypeRefV::Var(s@),
        TypeRef::App { head, args } => TypeRefV::App(head@, view_type_refs(args@)),
    }
}

pub open spec fn view_type_refs(s: Seq<TypeRef>) -> Seq<TypeRefV>
    decreases s, 1nat,
{
    if s.len() == 0 {
        Seq::empty()
    } else {
        seq![view_type_ref(s[0])] + view_type_refs(s.drop_first())
    }
}

impl View for TypeRef {
    type V = TypeRefV;

    open spec fn view(&self) -> TypeRefV {
        view_type_ref(*self)
    }
}

pub proof fn lemma_view_type_refs(s: Seq<TypeRef>)
    ensures
        view_type_refs(s).len() == s.len(),
        forall|i: int| 0 <= i < s.len() ==> #[trigger] view_type_refs(s)[i] == view_type_ref(s[i]),
    decreases s.len(),
{
    if s.len() > 0 {
        lemma_view_type_refs(s.drop_first());
        assert forall|i: int| 0 <= i < s.len() implies #[trigger] view_type_refs(s)[i]
            == view_type_ref(s[i]) by {
            if i > 0 {
                assert(s.drop_first()[i - 1] == s[i]);
            }
        }
    }
}

impl TypeRef {
    /// A structurally identical copy.
    pub fn copy_type_ref(&self) -> (r: TypeRef)
        ensures
            r@ == self@,
        decreases self@,
    {
        match self {
            TypeRef::Named(s) => TypeRef::Named(s.clone()),
            TypeRef::Var(s) => TypeRef::Var(s.clone()),
            TypeRef::App { head, args } => {
                proof {
                    lemma_view_type_refs(args@);
                }
                let mut out: Vec<TypeRef> = Vec::with_capacity(args.len());
                let mut i: usize = 0;
                while i < args.len()
                    invariant
                        self@ == TypeRefV::App(head@, view_type_refs(args@)),
                        view_type_refs(args@).len() == args@.len(),
                        forall|j: int| 0 <= j < args@.len() ==> #[trigger] view_type_refs(args@)[j]
                            == args@[j]@,
                        i <= args.len(),
                        out@.len() == i,
                        forall|j: int| 0 <= j < i ==> (#[trigger] out@[j])@ == args@[j]@,
                    decreases args.len() - i,
                {
                    proof {
                        let vs = view_type_refs(args@);
                        assert(vs[i as int] == args@[i as int]@);
                        assert(self@->App_1 == vs);
                        assert(decreases_to!(self@ => self@->App_1));
                        assert(decreases_to!(vs => vs[i as int]));
                    }
                    let c = args[i].copy_type_ref();
                    out.push(c);
                    i = i + 1;
                }
                proof {
                    lemma_view_type_refs(out@);
                    assert(view_type_refs(out@) =~= view_type_refs(args@));
                }
                TypeRef::App { head: head.clone(), args: out }
            },
        }
    }
}

impl Clone for TypeRef {
    fn clone(&self) -> (r: Self)
        ensures
            r@ == self@,
    {
        self.copy_type_ref()
    }
}

/// The type reference an expression spells: an identifier names a type,
/// `["t", name]` is a type variable and `[head, arg...]` an applied
/// constructor.
pub open spec fn type_ref_of(e: ExprV) -> Option<TypeRefV>
    decreases e, 0nat,
{
    match e {
        ExprV::Ident(n, _) => Some(TypeRefV::Named(n)),
        ExprV::List(items, _) => if items.len() == 2 && expr_ident(items[0]) == Some("t"@)
            && expr_ident(items[1]) is Some {
            Some(TypeRefV::Var(expr_ident(items[1])->0))
        } else if items.len() >= 2 && expr_ident(items[0]) is Some {
            match type_refs_of(items.skip(1)) {
                Some(args) => Some(TypeRefV::App(expr_ident(items[0])->0, args)),
                None => None,
            }
        } else {
            None
        },
        ExprV::Int(_, _) => None,
    }
}

pub open spec fn type_refs_of(s: Seq<ExprV>) -> Option<Seq<TypeRefV>>
    decreases s, 1nat,
{
    if s.len() == 0 {
        Some(Seq::empty())
    } else {
        match type_refs_of(s.drop_last()) {
            Some(init) => match type_ref_of(s.last()) {
                Some(t) => Some(init.push(t)),
                None => None,
            },
            None => None,
        }
    }
}

proof fn lemma_type_refs_none_prefix(s: Seq<ExprV>, k: int)
    requires
        0 <= k <= s.len(),
        type_refs_of(s.take(k)) is None,
    ensures
        type_refs_of(s) is None,
    decreases s.len() - k,
{
    if k < s.len() {
        assert(s.take(k + 1).drop_last() =~= s.take(k));
        lemma_type_refs_none_prefix(s, k + 1);
    } else {
        assert(s.take(k) =~= s);
    }
}

pub open spec fn opt_type_ref_view(o: Option<TypeRef>) -> Option<TypeRefV> {
    match o {
        Some(t) => Some(t@),
        None => None,
    }
}

/// Reads a type reference written as an expression.
pub fn type_ref_from_expr(e: &Expr) -> (r: Option<TypeRef>)
    ensures
        opt_type_ref_view(r) == type_ref_of(e@),
    decreases e@,
{
    match e {
        Expr::Ident { name, .. } => Some(TypeRef::Named(name.clone())),
        Expr::Int { .. } => None,
        Expr::List { items, .. } => {
            proof {
                lemma_view_exprs(items@);
            }
            let ghost vs = view_exprs(items@);
            if items.len() < 2 {
                return None;
            }
            let head = match items[0].as_ident() {
                Some(h) => h,
                None => {
                    assert(expr_ident(vs[0]) is None);
                    return None;
                },
            };
            if items.len() == 2 && crate::text::str_eq(head, "t") {
                match items[1].as_ident() {
                    Some(n) => {
                        return Some(TypeRef::Var(n.to_string()));
                    },
                    None => {},
                }
            }
            let mut args: Vec<TypeRef> = Vec::new();
            let mut i: usize = 1;
            assert(vs.subrange(1, 1) =~= Seq::<ExprV>::empty());
            while i < items.len()
                invariant
                    e@ == ExprV::List(vs, expr_ptr(e@)),
                    vs == view_exprs(items@),
                    vs.len() == items@.len(),
                    forall|j: int| 0 <= j < items@.len() ==> #[trigger] vs[j] == items@[j]@,
                    1 <= i <= items.len(),
                    type_refs_of(vs.subrange(1, i as int)) == Some(view_type_refs(args@)),
                decreases items.len() - i,
            {
                proof {
                    assert(vs[i as int] == items@[i as int]@);
                    assert(e@->List_0 == vs);
                    assert(decreases_to!(e@ => e@->List_0));
                    assert(decreases_to!(vs => vs[i as int]));
                    assert(vs.subrange(1, i + 1).drop_last() =~= vs.subrange(1, i as int));
                    assert(vs.subrange(1, i + 1).last() == vs[i as int]);
                }
                match type_ref_from_expr(&items[i]) {
                    Some(t) => {
                        let ghost before = args@;
                        args.push(t);
                        proof {
                            lemma_view_type_refs(before);
                            lemma_view_type_refs(args@);
                            assert(view_type_refs(args@) =~= view_type_refs(before).push(t@));
                        }
                    },
                    None => {
                        proof {
                            assert(vs.skip(1).take(i as int) =~= vs.subrange(1, i + 1));
                            lemma_type_refs_none_prefix(vs.skip(1), i as int);
                        }
                        return None;
                    },
                }
                i = i + 1;
            }
            assert(vs.subrange(1, items.len() as int) =~= vs.skip(1));
            Some(TypeRef::App { head: head.to_string(), args })
        },
    }
}

/// A declared type parameter of a generic function.
#[derive(Debug, Clone, PartialEq, Eq)]
pub struct TypeParam {
    pub name: String,
}

/// A parameter of a function declaration.
#[derive(Debug, Clone, PartialEq, Eq)]
pub struct FnParam {
    pub name: String,
    pub ty: TypeRef,
    pub brand: Option<String>,
}

/// A `requires`/`ensures`/`invariant` clause with its witness expressions.
#[derive(Debug, Clone, PartialEq, Eq)]
pub struct ContractClauseAst {
    pub expr: Expr,
    pub witness: Vec<Expr>,
}

/// An `extern` function declaration.
#[derive(Debug, Clone, PartialEq, Eq)]
pub struct ExternFunctionDecl {
    pub name: String,
    pub params: Vec<FnParam>,
    pub result: Option<TypeRef>,
}

/// A `defn` or `defasync` declaration.
#[derive(Debug, Clone, PartialEq, Eq)]
pub struct FunctionDecl {
    pub name: String,
    pub type_params: Vec<TypeParam>,
    pub params: Vec<FnParam>,
    pub result: TypeRef,
    pub result_brand: Option<String>,
    pub requires: Vec<ContractClauseAst>,
    pub ensures: Vec<ContractClauseAst>,
    pub invariant: Vec<ContractClauseAst>,
    pub body: Expr,
}

/// Whether a file is a program entry or a library module.
#[derive(Debug, Clone, Copy, PartialEq, Eq, Structural)]
pub enum X07AstKind {
    Entry,
    Module,
}

/// A parsed x07AST file.
#[derive(Debug, Clone, PartialEq, Eq)]
pub struct X07AstFile {
    pub kind: X07AstKind,
    pub module_id: String,
    pub exports: Vec<String>,
    pub extern_functions: Vec<ExternFunctionDecl>,
    pub functions: Vec<FunctionDecl>,
    pub async_functions: Vec<FunctionDecl>,
    pub solve: Option<Expr>,
}

} // verus!

//! Parsing of `std.stream.pipe_v1` descriptors: the configuration, the
//! source, the chain of transforms and the sink, with the expressions the
//! pipe takes as parameters.

use vstd::prelude::*;
use crate::ast::{expr_ident, expr_ptr, head_ident, lemma_view_exprs, view_exprs, Expr, ExprV};
use crate::compile::{CompileErrorKind, CompilerError};
use crate::suggest::{chars_le, chars_le_exec};
use crate::text::{chars_of, concat_str, str_eq};
use crate::types::Ty;
use crate::validate::{module_id_error, validate_module_id, validate_symbol};

verus! {

/// The error of a pipe descriptor that does not parse.
pub open spec fn typing_err(r: Result<(), CompilerError>, m: Seq<char>) -> bool {
    r matches Err(e) && e.kind == CompileErrorKind::Typing && e.message@ == m && e.diagnostic is None
}

/// `e` is a typing error with message `m`.
pub open spec fn is_typing_err(e: CompilerError, m: Seq<char>) -> bool {
    e.kind == CompileErrorKind::Typing && e.message@ == m && e.diagnostic is None
}

fn typing(m: String) -> (e: CompilerError)
    ensures
        is_typing_err(e, m@),
{
    CompilerError::new(CompileErrorKind::Typing, m)
}

fn typing_with(head: &str, tail: &str) -> (e: CompilerError)
    ensures
        is_typing_err(e, head@ + tail@),
{
    CompilerError::new(CompileErrorKind::Typing, concat_str(head, tail))
}

/// An expression the pipe evaluates once and passes to its helper, with the
/// type it must have.
#[derive(Debug)]
pub struct PipeParam {
    pub ty: Ty,
    pub expr: Expr,
}

pub open spec fn params_view(ps: Seq<PipeParam>) -> Seq<(Ty, ExprV)> {
    Seq::new(ps.len(), |i: int| (ps[i].ty, ps[i].expr@))
}

/// The integer an expression is, if it is an integer literal.
pub open spec fn int_of(e: ExprV) -> Option<i32> {
    match e {
        ExprV::Int(v, _) => Some(v),
        _ => None,
    }
}

pub fn expect_i32(expr: &Expr, message: &str) -> (r: Result<i32, CompilerError>)
    ensures
        match int_of(expr@) {
            Some(v) => r matches Ok(x) && x == v,
            None => r matches Err(e) && is_typing_err(e, message@),
        },
{
    match expr {
        Expr::Int { value, .. } => Ok(*value),
        _ => Err(typing(message.to_string())),
    }
}

/// The text of a `(bytes.lit <ident>)` expression.
pub open spec fn bytes_lit_text(e: ExprV) -> Option<Seq<char>> {
    match e {
        ExprV::List(items, _) => if head_ident(items) == Some("bytes.lit"@) && items.len() == 2 {
            expr_ident(items[1])
        } else {
            None
        },
        _ => None,
    }
}

pub fn expect_bytes_lit_text(expr: &Expr, message: &str) -> (r: Result<String, CompilerError>)
    ensures
        match bytes_lit_text(expr@) {
            Some(t) => r matches Ok(s) && s@ == t,
            None => r matches Err(e) && is_typing_err(e, message@),
        },
{
    match expr {
        Expr::List { items, .. } => {
            proof {
                lemma_view_exprs(items@);
            }
            if items.len() != 2 {
                return Err(typing(message.to_string()));
            }
            match items[0].as_ident() {
                Some(h) => {
                    if !str_eq(h, "bytes.lit") {
                        return Err(typing(message.to_string()));
                    }
                },
                None => {
                    return Err(typing(message.to_string()));
                },
            }
            match items[1].as_ident() {
                Some(t) => Ok(t.to_string()),
                None => Err(typing(message.to_string())),
            }
        },
        _ => Err(typing(message.to_string())),
    }
}

/// The wrapped expression of `(std.stream.expr_v1 <expr>)`, or the error.
pub open spec fn expr_wrapper_inner(w: ExprV) -> Result<ExprV, Seq<char>> {
    match w {
        ExprV::List(items, _) => if head_ident(items) == Some("std.stream.expr_v1"@) && items.len() == 2 {
            Ok(items[1])
        } else {
            Err("expected std.stream.expr_v1 wrapper"@)
        },
        _ => Err("std.stream.expr_v1 wrapper must be a list"@),
    }
}

/// Records the wrapped expression as the next parameter, of type `ty`, and
/// returns its index.
pub fn parse_expr_v1(params: &mut Vec<PipeParam>, ty: Ty, wrapper: &Expr) -> (r: Result<
    usize,
    CompilerError,
>)
    ensures
        match expr_wrapper_inner(wrapper@) {
            Ok(inner) => r matches Ok(i) && i == old(params)@.len() && params_view(final(params)@)
                == params_view(old(params)@).push((ty, inner)),
            Err(m) => r matches Err(e) && is_typing_err(e, m) && final(params)@ == old(params)@,
        },
{
    match wrapper {
        Expr::List { items, .. } => {
            proof {
                lemma_view_exprs(items@);
            }
            let ok_head = if items.len() == 2 {
                match items[0].as_ident() {
                    Some(h) => str_eq(h, "std.stream.expr_v1"),
                    None => false,
                }
            } else {
                false
            };
            if !ok_head {
                return Err(typing("expected std.stream.expr_v1 wrapper".to_string()));
            }
            let expr = items[1].copy_expr();
            let idx = params.len();
            params.push(PipeParam { ty, expr });
            assert(params_view(params@) =~= params_view(old(params)@).push((ty, items@[1]@)));
            Ok(idx)
        },
        _ => Err(typing("std.stream.expr_v1 wrapper must be a list".to_string())),
    }
}

/// The function name of `(std.stream.fn_v1 <ident>)`, or the error.
pub open spec fn fn_wrapper_name(w: ExprV) -> Result<Seq<char>, Seq<char>> {
    match w {
        ExprV::List(items, _) => if head_ident(items) == Some("std.stream.fn_v1"@) && items.len() == 2 {
            match expr_ident(items[1]) {
                Some(n) => Ok(n),
                None => Err("std.stream.fn_v1 expects a function identifier"@),
            }
        } else {
            Err("expected std.stream.fn_v1 wrapper"@)
        },
        _ => Err("std.stream.fn_v1 wrapper must be a list"@),
    }
}

/// A descriptor's `(key value)` fields, in order, each key once.
pub open spec fn fields_view(fs: Seq<(String, Expr)>) -> Seq<(Seq<char>, ExprV)> {
    Seq::new(fs.len(), |i: int| (fs[i].0@, fs[i].1@))
}

/// The value of field `k`.
pub open spec fn field_get(fs: Seq<(Seq<char>, ExprV)>, k: Seq<char>) -> Option<ExprV>
    decreases fs.len(),
{
    if fs.len() == 0 {
        None
    } else if fs.last().0 == k {
        Some(fs.last().1)
    } else {
        field_get(fs.drop_last(), k)
    }
}

/// The fields of `tail`, or the message for its first item that is not a
/// `(key value)` pair with a new identifier key.
pub open spec fn kv_fields_spec(head: Seq<char>, tail: Seq<ExprV>) -> Result<Seq<(Seq<char>, ExprV)>, Seq<char>>
    decreases tail.len(),
{
    if tail.len() == 0 {
        Ok(Seq::empty())
    } else {
        match kv_fields_spec(head, tail.drop_last()) {
            Err(m) => Err(m),
            Ok(fs) => match tail.last() {
                ExprV::List(kv, _) => if kv.len() != 2 {
                    Err(head + " fields must be pairs"@)
                } else {
                    match expr_ident(kv[0]) {
                        None => Err(head + " field key must be an identifier"@),
                        Some(k) => if field_get(fs, k) is Some {
                            Err(head + " has duplicate field: "@ + k)
                        } else {
                            Ok(fs.push((k, kv[1])))
                        },
                    }
                },
                _ => Err(head + " fields must be pairs"@),
            },
        }
    }
}

fn field_find(fs: &Vec<(String, Expr)>, k: &str) -> (r: Option<usize>)
    ensures
        match r {
            Some(i) => i < fs@.len() && field_get(fields_view(fs@), k@) == Some(fs@[i as int].1@)
                && fs@[i as int].0@ == k@,
            None => field_get(fields_view(fs@), k@) is None,
        },
{
    let mut i: usize = fs.len();
    assert(fields_view(fs@).take(i as int) =~= fields_view(fs@));
    while i > 0
        invariant
            i <= fs@.len(),
            field_get(fields_view(fs@), k@) == field_get(fields_view(fs@).take(i as int), k@),
        decreases i,
    {
        let ghost pre = fields_view(fs@).take(i as int);
        assert(pre.drop_last() =~= fields_view(fs@).take(i - 1));
        if str_eq(fs[i - 1].0.as_str(), k) {
            return Some(i - 1);
        }
        i = i - 1;
    }
    None
}

/// The value of field `k`, if the descriptor has it.
pub fn field_value<'a>(fs: &'a Vec<(String, Expr)>, k: &str) -> (r: Option<&'a Expr>)
    ensures
        match r {
            Some(e) => field_get(fields_view(fs@), k@) == Some(e@),
            None => field_get(fields_view(fs@), k@) is None,
        },
{
    match field_find(fs, k) {
        Some(i) => Some(&fs[i].1),
        None => None,
    }
}

proof fn lemma_kv_err_prefix(head: Seq<char>, t: Seq<ExprV>, k: int)
    requires
        0 <= k <= t.len(),
        kv_fields_spec(head, t.take(k)) is Err,
    ensures
        kv_fields_spec(head, t) == kv_fields_spec(head, t.take(k)),
    decreases t.len() - k,
{
    if k < t.len() {
        assert(t.take(k + 1).drop_last() =~= t.take(k));
        lemma_kv_err_prefix(head, t, k + 1);
    } else {
        assert(t.take(k) =~= t);
    }
}

/// The `(key value)` fields of `items[start..]`.
pub fn parse_kv_fields(head: &str, items: &Vec<Expr>, start: usize) -> (r: Result<
    Vec<(String, Expr)>,
    CompilerError,
>)
    requires
        start <= items@.len(),
    ensures
        match kv_fields_spec(head@, view_exprs(items@).skip(start as int)) {
            Ok(fs) => r matches Ok(v) && fields_view(v@) == fs,
            Err(m) => r matches Err(e) && is_typing_err(e, m),
        },
{
    proof {
        lemma_view_exprs(items@);
    }
    let ghost all = view_exprs(items@).skip(start as int);
    let mut out: Vec<(String, Expr)> = Vec::new();
    let mut i: usize = start;
    assert(all.take(0) =~= Seq::<ExprV>::empty());
    assert(fields_view(out@) =~= Seq::<(Seq<char>, ExprV)>::empty());
    while i < items.len()
        invariant
            start <= i <= items@.len(),
            all == view_exprs(items@).skip(start as int),
            view_exprs(items@).len() == items@.len(),
            forall|j: int| 0 <= j < items@.len() ==> #[trigger] view_exprs(items@)[j] == items@[j]@,
            kv_fields_spec(head@, all.take(i - start)) == Ok::<Seq<(Seq<char>, ExprV)>, Seq<char>>(
                fields_view(out@),
            ),
        decreases items.len() - i,
    {
        let ghost pre = all.take(i - start);
        let ghost nxt = all.take(i - start + 1);
        assert(nxt.drop_last() =~= pre);
        assert(nxt.last() == items@[i as int]@);
        match &items[i] {
            Expr::List { items: kv, .. } => {
                proof {
                    lemma_view_exprs(kv@);
                }
                if kv.len() != 2 {
                    proof {
                    lemma_kv_err_prefix(head@, all, i - start + 1);
                }
                return Err(typing_with(head, " fields must be pairs"));
                }
                let key = match kv[0].as_ident() {
                    Some(k) => k,
                    None => {
                        proof {
                    lemma_kv_err_prefix(head@, all, i - start + 1);
                }
                return Err(typing_with(head, " field key must be an identifier"));
                    },
                };
                if field_find(&out, key).is_some() {
                    let m = concat_str(head, " has duplicate field: ");
                    proof {
                    lemma_kv_err_prefix(head@, all, i - start + 1);
                }
                return Err(typing_with(m.as_str(), key));
                }
                let ghost before = fields_view(out@);
                out.push((key.to_string(), kv[1].copy_expr()));
                assert(fields_view(out@) =~= before.push((key@, kv@[1]@)));
            },
            _ => {
                proof {
                    lemma_kv_err_prefix(head@, all, i - start + 1);
                }
                return Err(typing_with(head, " fields must be pairs"));
            },
        }
        i = i + 1;
    }
    assert(all.take(i - start) =~= all);
    Ok(out)
}


/// The least key of `fs`, in string order, that `allowed` does not list.
pub open spec fn least_unknown(fs: Seq<(Seq<char>, ExprV)>, allowed: Seq<Seq<char>>) -> Option<Seq<char>>
    decreases fs.len(),
{
    if fs.len() == 0 {
        None
    } else {
        let rest = least_unknown(fs.drop_last(), allowed);
        let k = fs.last().0;
        if allowed.contains(k) {
            rest
        } else {
            match rest {
                None => Some(k),
                Some(k2) => if chars_le(k, k2) {
                    Some(k)
                } else {
                    Some(k2)
                },
            }
        }
    }
}

pub open spec fn strs_view(v: Seq<&str>) -> Seq<Seq<char>> {
    Seq::new(v.len(), |i: int| v[i]@)
}

fn str_in(k: &str, allowed: &Vec<&str>) -> (r: bool)
    ensures
        r == strs_view(allowed@).contains(k@),
{
    let mut i: usize = 0;
    while i < allowed.len()
        invariant
            i <= allowed@.len(),
            forall|j: int| 0 <= j < i ==> allowed@[j]@ != k@,
        decreases allowed.len() - i,
    {
        if str_eq(allowed[i], k) {
            assert(strs_view(allowed@)[i as int] == k@);
            return true;
        }
        i = i + 1;
    }
    proof {
        if strs_view(allowed@).contains(k@) {
            let j = choose|j: int| 0 <= j < strs_view(allowed@).len() && strs_view(allowed@)[j] == k@;
            assert(allowed@[j]@ == k@);
        }
    }
    false
}

/// Refuses a descriptor with a field `allowed` does not list, naming the
/// least such key.
pub fn check_known_fields(head: &str, fs: &Vec<(String, Expr)>, allowed: &Vec<&str>) -> (r: Result<
    (),
    CompilerError,
>)
    ensures
        match least_unknown(fields_view(fs@), strs_view(allowed@)) {
            None => r is Ok,
            Some(k) => typing_err(r, head@ + " unknown field: "@ + k),
        },
{
    let ghost al = strs_view(allowed@);
    let mut best: Option<usize> = None;
    let mut i: usize = 0;
    assert(fields_view(fs@).take(0) =~= Seq::<(Seq<char>, ExprV)>::empty());
    while i < fs.len()
        invariant
            i <= fs@.len(),
            al == strs_view(allowed@),
            match best {
                None => least_unknown(fields_view(fs@).take(i as int), al) is None,
                Some(b) => b < i && least_unknown(fields_view(fs@).take(i as int), al) == Some(
                    fs@[b as int].0@,
                ),
            },
        decreases fs.len() - i,
    {
        let ghost pre = fields_view(fs@).take(i as int);
        let ghost nxt = fields_view(fs@).take(i + 1);
        assert(nxt.drop_last() =~= pre);
        assert(nxt.last() == (fs@[i as int].0@, fs@[i as int].1@));
        if !str_in(fs[i].0.as_str(), allowed) {
            match best {
                None => {
                    best = Some(i);
                },
                Some(b) => {
                    let ki = chars_of(fs[i].0.as_str());
                    let kb = chars_of(fs[b].0.as_str());
                    if chars_le_exec(&ki, &kb) {
                        best = Some(i);
                    }
                },
            }
        }
        i = i + 1;
    }
    assert(fields_view(fs@).take(i as int) =~= fields_view(fs@));
    match best {
        None => Ok(()),
        Some(b) => {
            let m = concat_str(head, " unknown field: ");
            Err(typing_with(m.as_str(), fs[b].0.as_str()))
        },
    }
}

/// A brand identifier, or the error for the value of field `label`.
pub open spec fn brand_id_spec(e: ExprV, label: Seq<char>) -> Result<Seq<char>, Seq<char>> {
    match expr_ident(e) {
        None => Err(label + " must be an identifier"@),
        Some(b) => match module_id_error(b) {
            Some(m) => Err(m),
            None => Ok(b),
        },
    }
}

pub fn parse_brand_id(expr: &Expr, label: &str) -> (r: Result<String, CompilerError>)
    ensures
        match brand_id_spec(expr@, label@) {
            Ok(b) => r matches Ok(s) && s@ == b,
            Err(m) => r matches Err(e) && is_typing_err(e, m),
        },
{
    let brand = match expr.as_ident() {
        Some(b) => b,
        None => {
            return Err(typing_with(label, " must be an identifier"));
        },
    };
    match validate_symbol(brand) {
        Ok(()) => Ok(brand.to_string()),
        Err(m) => Err(typing(m)),
    }
}

/// What a stage accepts: any item, the previous stage's brand, or a brand.
#[derive(Debug, PartialEq, Eq)]
pub enum PipeItemBrandInV1 {
    Any,
    Same,
    Brand(String),
}

/// What a stage produces: the input's brand, no brand (`none`), or a brand.
#[derive(Debug, PartialEq, Eq)]
pub enum PipeItemBrandOutV1 {
    Same,
    Unbranded,
    Brand(String),
}

pub enum BrandInV {
    Any,
    Same,
    Brand(Seq<char>),
}

pub enum BrandOutV {
    Same,
    Unbranded,
    Brand(Seq<char>),
}

impl View for PipeItemBrandInV1 {
    type V = BrandInV;

    open spec fn view(&self) -> BrandInV {
        match self {
            PipeItemBrandInV1::Any => BrandInV::Any,
            PipeItemBrandInV1::Same => BrandInV::Same,
            PipeItemBrandInV1::Brand(s) => BrandInV::Brand(s@),
        }
    }
}

impl View for PipeItemBrandOutV1 {
    type V = BrandOutV;

    open spec fn view(&self) -> BrandOutV {
        match self {
            PipeItemBrandOutV1::Same => BrandOutV::Same,
            PipeItemBrandOutV1::Unbranded => BrandOutV::Unbranded,
            PipeItemBrandOutV1::Brand(s) => BrandOutV::Brand(s@),
        }
    }
}

pub open spec fn brand_in_spec(e: ExprV, label: Seq<char>) -> Result<BrandInV, Seq<char>> {
    match expr_ident(e) {
        None => Err(label + " must be an identifier"@),
        Some(v) => if v == "any"@ {
            Ok(BrandInV::Any)
        } else if v == "same"@ {
            Ok(BrandInV::Same)
        } else {
            match module_id_error(v) {
                Some(m) => Err(m),
                None => Ok(BrandInV::Brand(v)),
            }
        },
    }
}

pub open spec fn brand_out_spec(e: ExprV, label: Seq<char>) -> Result<BrandOutV, Seq<char>> {
    match expr_ident(e) {
        None => Err(label + " must be an identifier"@),
        Some(v) => if v == "same"@ {
            Ok(BrandOutV::Same)
        } else if v == "none"@ {
            Ok(BrandOutV::Unbranded)
        } else {
            match module_id_error(v) {
                Some(m) => Err(m),
                None => Ok(BrandOutV::Brand(v)),
            }
        },
    }
}

pub fn parse_item_brand_in(expr: &Expr, label: &str) -> (r: Result<PipeItemBrandInV1, CompilerError>)
    ensures
        match brand_in_spec(expr@, label@) {
            Ok(b) => r matches Ok(x) && x@ == b,
            Err(m) => r matches Err(e) && is_typing_err(e, m),
        },
{
    let v = match expr.as_ident() {
        Some(v) => v,
        None => {
            return Err(typing_with(label, " must be an identifier"));
        },
    };
    if str_eq(v, "any") {
        Ok(PipeItemBrandInV1::Any)
    } else if str_eq(v, "same") {
        Ok(PipeItemBrandInV1::Same)
    } else {
        match validate_symbol(v) {
            Ok(()) => Ok(PipeItemBrandInV1::Brand(v.to_string())),
            Err(m) => Err(typing(m)),
        }
    }
}

pub fn parse_item_brand_out(expr: &Expr, label: &str) -> (r: Result<PipeItemBrandOutV1, CompilerError>)
    ensures
        match brand_out_spec(expr@, label@) {
            Ok(b) => r matches Ok(x) && x@ == b,
            Err(m) => r matches Err(e) && is_typing_err(e, m),
        },
{
    let v = match expr.as_ident() {
        Some(v) => v,
        None => {
            return Err(typing_with(label, " must be an identifier"));
        },
    };
    if str_eq(v, "same") {
        Ok(PipeItemBrandOutV1::Same)
    } else if str_eq(v, "none") {
        Ok(PipeItemBrandOutV1::Unbranded)
    } else {
        match validate_symbol(v) {
            Ok(()) => Ok(PipeItemBrandOutV1::Brand(v.to_string())),
            Err(m) => Err(typing(m)),
        }
    }
}

/// An optional field parsed by `p`: absent stays absent.
pub open spec fn opt_brand_id(fs: Seq<(Seq<char>, ExprV)>, key: Seq<char>) -> Result<Option<Seq<char>>, Seq<char>> {
    match field_get(fs, key) {
        None => Ok(None),
        Some(v) => match brand_id_spec(v, key) {
            Ok(b) => Ok(Some(b)),
            Err(m) => Err(m),
        },
    }
}

pub open spec fn opt_brand_in(fs: Seq<(Seq<char>, ExprV)>) -> Result<Option<BrandInV>, Seq<char>> {
    match field_get(fs, "in_item_brand"@) {
        None => Ok(None),
        Some(v) => match brand_in_spec(v, "in_item_brand"@) {
            Ok(b) => Ok(Some(b)),
            Err(m) => Err(m),
        },
    }
}

pub open spec fn opt_brand_out(fs: Seq<(Seq<char>, ExprV)>) -> Result<Option<BrandOutV>, Seq<char>> {
    match field_get(fs, "out_item_brand"@) {
        None => Ok(None),
        Some(v) => match brand_out_spec(v, "out_item_brand"@) {
            Ok(b) => Ok(Some(b)),
            Err(m) => Err(m),
        },
    }
}

pub open spec fn opt_in_view(o: Option<PipeItemBrandInV1>) -> Option<BrandInV> {
    match o {
        None => None,
        Some(b) => Some(b@),
    }
}

pub open spec fn opt_out_view(o: Option<PipeItemBrandOutV1>) -> Option<BrandOutV> {
    match o {
        None => None,
        Some(b) => Some(b@),
    }
}

pub open spec fn opt_str_view(o: Option<String>) -> Option<Seq<char>> {
    match o {
        None => None,
        Some(s) => Some(s@),
    }
}

/// The optional `out_item_brand` of a source.
pub fn parse_opt_brand_id(fs: &Vec<(String, Expr)>, key: &str) -> (r: Result<Option<String>, CompilerError>)
    ensures
        match opt_brand_id(fields_view(fs@), key@) {
            Ok(o) => r matches Ok(x) && opt_str_view(x) == o,
            Err(m) => r matches Err(e) && is_typing_err(e, m),
        },
{
    match field_value(fs, key) {
        None => Ok(None),
        Some(v) => {
            let b = parse_brand_id(v, key)?;
            Ok(Some(b))
        },
    }
}

fn parse_opt_brand_in(fs: &Vec<(String, Expr)>) -> (r: Result<Option<PipeItemBrandInV1>, CompilerError>)
    ensures
        match opt_brand_in(fields_view(fs@)) {
            Ok(o) => r matches Ok(x) && opt_in_view(x) == o,
            Err(m) => r matches Err(e) && is_typing_err(e, m),
        },
{
    match field_value(fs, "in_item_brand") {
        None => Ok(None),
        Some(v) => {
            let b = parse_item_brand_in(v, "in_item_brand")?;
            Ok(Some(b))
        },
    }
}

fn parse_opt_brand_out(fs: &Vec<(String, Expr)>) -> (r: Result<Option<PipeItemBrandOutV1>, CompilerError>)
    ensures
        match opt_brand_out(fields_view(fs@)) {
            Ok(o) => r matches Ok(x) && opt_out_view(x) == o,
            Err(m) => r matches Err(e) && is_typing_err(e, m),
        },
{
    match field_value(fs, "out_item_brand") {
        None => Ok(None),
        Some(v) => {
            let b = parse_item_brand_out(v, "out_item_brand")?;
            Ok(Some(b))
        },
    }
}

/// A transform's brand fields, or the error for the first that is wrong.
pub open spec fn xf_brand_fields_spec(head: Seq<char>, fs: Seq<(Seq<char>, ExprV)>) -> Result<
    (Option<BrandInV>, Option<BrandOutV>),
    Seq<char>,
> {
    match least_unknown(fs, seq!["in_item_brand"@, "out_item_brand"@]) {
        Some(k) => Err(head + " unknown field: "@ + k),
        None => match opt_brand_in(fs) {
            Err(m) => Err(m),
            Ok(i) => match opt_brand_out(fs) {
                Err(m) => Err(m),
                Ok(o) => Ok((i, o)),
            },
        },
    }
}

pub fn parse_xf_item_brand_fields(head: &str, fields: &Vec<(String, Expr)>) -> (r: Result<
    (Option<PipeItemBrandInV1>, Option<PipeItemBrandOutV1>),
    CompilerError,
>)
    ensures
        match xf_brand_fields_spec(head@, fields_view(fields@)) {
            Ok((i, o)) => r matches Ok((x, y)) && opt_in_view(x) == i && opt_out_view(y) == o,
            Err(m) => r matches Err(e) && is_typing_err(e, m),
        },
{
    let mut allowed: Vec<&str> = Vec::new();
    allowed.push("in_item_brand");
    allowed.push("out_item_brand");
    assert(strs_view(allowed@) =~= seq!["in_item_brand"@, "out_item_brand"@]);
    check_known_fields(head, fields, &allowed)?;
    let i = parse_opt_brand_in(fields)?;
    let o = parse_opt_brand_out(fields)?;
    Ok((i, o))
}

/// A sink's brand field, or the error; a sink cannot take `same`.
pub open spec fn sink_brand_fields_spec(head: Seq<char>, fs: Seq<(Seq<char>, ExprV)>) -> Result<
    Option<BrandInV>,
    Seq<char>,
> {
    match least_unknown(fs, seq!["in_item_brand"@]) {
        Some(k) => Err(head + " unknown field: "@ + k),
        None => match opt_brand_in(fs) {
            Err(m) => Err(m),
            Ok(Some(BrandInV::Same)) => Err(head + " in_item_brand must be \"any\" or a brand id"@),
            Ok(i) => Ok(i),
        },
    }
}

pub fn parse_sink_item_brand_fields(head: &str, fields: &Vec<(String, Expr)>) -> (r: Result<
    Option<PipeItemBrandInV1>,
    CompilerError,
>)
    ensures
        match sink_brand_fields_spec(head@, fields_view(fields@)) {
            Ok(i) => r matches Ok(x) && opt_in_view(x) == i,
            Err(m) => r matches Err(e) && is_typing_err(e, m),
        },
{
    let mut allowed: Vec<&str> = Vec::new();
    allowed.push("in_item_brand");
    assert(strs_view(allowed@) =~= seq!["in_item_brand"@]);
    check_known_fields(head, fields, &allowed)?;
    let i = parse_opt_brand_in(fields)?;
    if let Some(PipeItemBrandInV1::Same) = i {
        return Err(typing_with(head, " in_item_brand must be \"any\" or a brand id"));
    }
    Ok(i)
}


/// The pipe's limits and switches.
#[derive(Debug)]
pub struct PipeCfgV1 {
    pub chunk_max_bytes: i32,
    pub bufread_cap_bytes: i32,
    pub max_in_bytes: i32,
    pub max_out_bytes: i32,
    pub max_items: i32,
    pub max_steps: Option<i32>,
    pub emit_payload: Option<i32>,
    pub emit_stats: Option<i32>,
    pub allow_nondet_v1: i32,
    pub typecheck_item_brands_v1: i32,
    pub auto_require_brand_v1: i32,
    pub brand_registry_ref_v1: Option<String>,
    pub verify_produced_brands_v1: i32,
}

/// The configuration fields seen so far.
pub struct CfgSeenV {
    pub chunk_max_bytes: Option<i32>,
    pub bufread_cap_bytes: Option<i32>,
    pub max_in_bytes: Option<i32>,
    pub max_out_bytes: Option<i32>,
    pub max_items: Option<i32>,
    pub max_steps: Option<i32>,
    pub emit_payload: Option<i32>,
    pub emit_stats: Option<i32>,
    pub allow_nondet_v1: Option<i32>,
    pub typecheck_item_brands_v1: Option<i32>,
    pub auto_require_brand_v1: Option<i32>,
    pub brand_registry_ref_v1: Option<Seq<char>>,
    pub verify_produced_brands_v1: Option<i32>,
}

/// The configuration, with the registry reference as text.
pub struct PipeCfgV {
    pub chunk_max_bytes: i32,
    pub bufread_cap_bytes: i32,
    pub max_in_bytes: i32,
    pub max_out_bytes: i32,
    pub max_items: i32,
    pub max_steps: Option<i32>,
    pub emit_payload: Option<i32>,
    pub emit_stats: Option<i32>,
    pub allow_nondet_v1: i32,
    pub typecheck_item_brands_v1: i32,
    pub auto_require_brand_v1: i32,
    pub brand_registry_ref_v1: Option<Seq<char>>,
    pub verify_produced_brands_v1: i32,
}

impl View for PipeCfgV1 {
    type V = PipeCfgV;

    open spec fn view(&self) -> PipeCfgV {
        PipeCfgV {
            chunk_max_bytes: self.chunk_max_bytes,
            bufread_cap_bytes: self.bufread_cap_bytes,
            max_in_bytes: self.max_in_bytes,
            max_out_bytes: self.max_out_bytes,
            max_items: self.max_items,
            max_steps: self.max_steps,
            emit_payload: self.emit_payload,
            emit_stats: self.emit_stats,
            allow_nondet_v1: self.allow_nondet_v1,
            typecheck_item_brands_v1: self.typecheck_item_brands_v1,
            auto_require_brand_v1: self.auto_require_brand_v1,
            brand_registry_ref_v1: opt_str_view(self.brand_registry_ref_v1),
            verify_produced_brands_v1: self.verify_produced_brands_v1,
        }
    }
}

pub open spec fn cfg_seen_empty() -> CfgSeenV {
    CfgSeenV {
        chunk_max_bytes: None,
        bufread_cap_bytes: None,
        max_in_bytes: None,
        max_out_bytes: None,
        max_items: None,
        max_steps: None,
        emit_payload: None,
        emit_stats: None,
        allow_nondet_v1: None,
        typecheck_item_brands_v1: None,
        auto_require_brand_v1: None,
        brand_registry_ref_v1: None,
        verify_produced_brands_v1: None,
    }
}

/// An integer field's value, or `<name> must be an integer`.
pub open spec fn int_field(v: ExprV, name: Seq<char>) -> Result<i32, Seq<char>> {
    match int_of(v) {
        Some(x) => Ok(x),
        None => Err(name + " must be an integer"@),
    }
}

/// A 0/1 switch's value, or the error.
pub open spec fn flag_field(v: ExprV, name: Seq<char>) -> Result<i32, Seq<char>> {
    match int_of(v) {
        Some(x) => if x == 0 || x == 1 {
            Ok(x)
        } else {
            Err(name + " must be 0 or 1"@)
        },
        None => Err(name + " must be an integer"@),
    }
}

/// One configuration field applied to what was seen before it (a later
/// field of the same name replaces the earlier one).
pub open spec fn cfg_step(a: CfgSeenV, field: ExprV) -> Result<CfgSeenV, Seq<char>> {
    match field {
        ExprV::List(kv, _) => if kv.len() != 2 {
            Err("cfg field must be a pair"@)
        } else {
            match expr_ident(kv[0]) {
                None => Err("cfg key must be an identifier"@),
                Some(key) => {
                    let v = kv[1];
                    if key == "chunk_max_bytes"@ {
                        match int_field(v, key) {
                            Ok(x) => Ok(CfgSeenV { chunk_max_bytes: Some(x), ..a }),
                            Err(m) => Err(m),
                        }
                    } else if key == "bufread_cap_bytes"@ {
                        match int_field(v, key) {
                            Ok(x) => Ok(CfgSeenV { bufread_cap_bytes: Some(x), ..a }),
                            Err(m) => Err(m),
                        }
                    } else if key == "max_in_bytes"@ {
                        match int_field(v, key) {
                            Ok(x) => Ok(CfgSeenV { max_in_bytes: Some(x), ..a }),
                            Err(m) => Err(m),
                        }
                    } else if key == "max_out_bytes"@ {
                        match int_field(v, key) {
                            Ok(x) => Ok(CfgSeenV { max_out_bytes: Some(x), ..a }),
                            Err(m) => Err(m),
                        }
                    } else if key == "max_items"@ {
                        match int_field(v, key) {
                            Ok(x) => Ok(CfgSeenV { max_items: Some(x), ..a }),
                            Err(m) => Err(m),
                        }
                    } else if key == "max_steps"@ {
                        match int_field(v, key) {
                            Ok(x) => Ok(CfgSeenV { max_steps: Some(x), ..a }),
                            Err(m) => Err(m),
                        }
                    } else if key == "emit_payload"@ {
                        match int_field(v, key) {
                            Ok(x) => Ok(CfgSeenV { emit_payload: Some(x), ..a }),
                            Err(m) => Err(m),
                        }
                    } else if key == "emit_stats"@ {
                        match int_field(v, key) {
                            Ok(x) => Ok(CfgSeenV { emit_stats: Some(x), ..a }),
                            Err(m) => Err(m),
                        }
                    } else if key == "allow_nondet_v1"@ {
                        match flag_field(v, key) {
                            Ok(x) => Ok(CfgSeenV { allow_nondet_v1: Some(x), ..a }),
                            Err(m) => Err(m),
                        }
                    } else if key == "typecheck_item_brands_v1"@ {
                        match flag_field(v, key) {
                            Ok(x) => Ok(CfgSeenV { typecheck_item_brands_v1: Some(x), ..a }),
                            Err(m) => Err(m),
                        }
                    } else if key == "auto_require_brand_v1"@ {
                        match flag_field(v, key) {
                            Ok(x) => Ok(CfgSeenV { auto_require_brand_v1: Some(x), ..a }),
                            Err(m) => Err(m),
                        }
                    } else if key == "brand_registry_ref_v1"@ {
                        match bytes_lit_text(v) {
                            None => Err("brand_registry_ref_v1 must be bytes"@),
                            Some(t) => match module_id_error(t) {
                                Some(m) => Err(m),
                                None => Ok(CfgSeenV { brand_registry_ref_v1: Some(t), ..a }),
                            },
                        }
                    } else if key == "verify_produced_brands_v1"@ {
                        match flag_field(v, key) {
                            Ok(x) => Ok(CfgSeenV { verify_produced_brands_v1: Some(x), ..a }),
                            Err(m) => Err(m),
                        }
                    } else {
                        Err("unknown cfg field: "@ + key)
                    }
                },
            }
        },
        _ => Err("cfg field must be a pair"@),
    }
}

/// The fields applied in order, stopping at the first error.
pub open spec fn cfg_fold(fields: Seq<ExprV>) -> Result<CfgSeenV, Seq<char>>
    decreases fields.len(),
{
    if fields.len() == 0 {
        Ok(cfg_seen_empty())
    } else {
        match cfg_fold(fields.drop_last()) {
            Err(m) => Err(m),
            Ok(a) => cfg_step(a, fields.last()),
        }
    }
}

/// The configuration from the fields seen: the five limits are required,
/// the switches default to `allow_nondet_v1 = 0`, `typecheck_item_brands_v1
/// = 1`, `auto_require_brand_v1 = 0` and `verify_produced_brands_v1 = 0`.
pub open spec fn cfg_finish(a: CfgSeenV) -> Result<PipeCfgV, Seq<char>> {
    if a.chunk_max_bytes is None {
        Err("cfg missing chunk_max_bytes"@)
    } else if a.bufread_cap_bytes is None {
        Err("cfg missing bufread_cap_bytes"@)
    } else if a.max_in_bytes is None {
        Err("cfg missing max_in_bytes"@)
    } else if a.max_out_bytes is None {
        Err("cfg missing max_out_bytes"@)
    } else if a.max_items is None {
        Err("cfg missing max_items"@)
    } else {
        Ok(
            PipeCfgV {
                chunk_max_bytes: a.chunk_max_bytes->0,
                bufread_cap_bytes: a.bufread_cap_bytes->0,
                max_in_bytes: a.max_in_bytes->0,
                max_out_bytes: a.max_out_bytes->0,
                max_items: a.max_items->0,
                max_steps: a.max_steps,
                emit_payload: a.emit_payload,
                emit_stats: a.emit_stats,
                allow_nondet_v1: match a.allow_nondet_v1 {
                    Some(x) => x,
                    None => 0,
                },
                typecheck_item_brands_v1: match a.typecheck_item_brands_v1 {
                    Some(x) => x,
                    None => 1,
                },
                auto_require_brand_v1: match a.auto_require_brand_v1 {
                    Some(x) => x,
                    None => 0,
                },
                brand_registry_ref_v1: a.brand_registry_ref_v1,
                verify_produced_brands_v1: match a.verify_produced_brands_v1 {
                    Some(x) => x,
                    None => 0,
                },
            },
        )
    }
}

/// `(std.stream.cfg_v1 (key value)...)` read as a configuration.
pub open spec fn cfg_spec(e: ExprV) -> Result<PipeCfgV, Seq<char>> {
    match e {
        ExprV::List(items, _) => if head_ident(items) != Some("std.stream.cfg_v1"@) {
            Err("pipe cfg must be std.stream.cfg_v1"@)
        } else {
            match cfg_fold(items.drop_first()) {
                Err(m) => Err(m),
                Ok(a) => cfg_finish(a),
            }
        },
        _ => Err("std.stream.cfg_v1 must be a list"@),
    }
}

/// The configuration fields seen so far, as they are being read.
struct CfgSeen {
    chunk_max_bytes: Option<i32>,
    bufread_cap_bytes: Option<i32>,
    max_in_bytes: Option<i32>,
    max_out_bytes: Option<i32>,
    max_items: Option<i32>,
    max_steps: Option<i32>,
    emit_payload: Option<i32>,
    emit_stats: Option<i32>,
    allow_nondet_v1: Option<i32>,
    typecheck_item_brands_v1: Option<i32>,
    auto_require_brand_v1: Option<i32>,
    brand_registry_ref_v1: Option<String>,
    verify_produced_brands_v1: Option<i32>,
}

impl View for CfgSeen {
    type V = CfgSeenV;

    closed spec fn view(&self) -> CfgSeenV {
        CfgSeenV {
            chunk_max_bytes: self.chunk_max_bytes,
            bufread_cap_bytes: self.bufread_cap_bytes,
            max_in_bytes: self.max_in_bytes,
            max_out_bytes: self.max_out_bytes,
            max_items: self.max_items,
            max_steps: self.max_steps,
            emit_payload: self.emit_payload,
            emit_stats: self.emit_stats,
            allow_nondet_v1: self.allow_nondet_v1,
            typecheck_item_brands_v1: self.typecheck_item_brands_v1,
            auto_require_brand_v1: self.auto_require_brand_v1,
            brand_registry_ref_v1: opt_str_view(self.brand_registry_ref_v1),
            verify_produced_brands_v1: self.verify_produced_brands_v1,
        }
    }
}

fn expect_flag(v: &Expr, name: &str) -> (r: Result<i32, CompilerError>)
    ensures
        match flag_field(v@, name@) {
            Ok(x) => r matches Ok(y) && y == x,
            Err(m) => r matches Err(e) && is_typing_err(e, m),
        },
{
    let x = match v {
        Expr::Int { value, .. } => *value,
        _ => {
            return Err(typing_with(name, " must be an integer"));
        },
    };
    if x != 0 && x != 1 {
        return Err(typing_with(name, " must be 0 or 1"));
    }
    Ok(x)
}

fn expect_int_field(v: &Expr, name: &str) -> (r: Result<i32, CompilerError>)
    ensures
        match int_field(v@, name@) {
            Ok(x) => r matches Ok(y) && y == x,
            Err(m) => r matches Err(e) && is_typing_err(e, m),
        },
{
    match v {
        Expr::Int { value, .. } => Ok(*value),
        _ => Err(typing_with(name, " must be an integer")),
    }
}

#[verifier::rlimit(40)]
fn apply_cfg_field(a: &mut CfgSeen, field: &Expr) -> (r: Result<(), CompilerError>)
    ensures
        match cfg_step(old(a)@, field@) {
            Ok(n) => r is Ok && final(a)@ == n,
            Err(m) => r matches Err(e) && is_typing_err(e, m),
        },
{
    let kv = match field {
        Expr::List { items, .. } => items,
        _ => {
            return Err(typing("cfg field must be a pair".to_string()));
        },
    };
    proof {
        lemma_view_exprs(kv@);
    }
    if kv.len() != 2 {
        return Err(typing("cfg field must be a pair".to_string()));
    }
    let key = match kv[0].as_ident() {
        Some(k) => k,
        None => {
            return Err(typing("cfg key must be an identifier".to_string()));
        },
    };
    let v = &kv[1];
    if str_eq(key, "chunk_max_bytes") {
        a.chunk_max_bytes = Some(expect_int_field(v, key)?);
    } else if str_eq(key, "bufread_cap_bytes") {
        a.bufread_cap_bytes = Some(expect_int_field(v, key)?);
    } else if str_eq(key, "max_in_bytes") {
        a.max_in_bytes = Some(expect_int_field(v, key)?);
    } else if str_eq(key, "max_out_bytes") {
        a.max_out_bytes = Some(expect_int_field(v, key)?);
    } else if str_eq(key, "max_items") {
        a.max_items = Some(expect_int_field(v, key)?);
    } else if str_eq(key, "max_steps") {
        a.max_steps = Some(expect_int_field(v, key)?);
    } else if str_eq(key, "emit_payload") {
        a.emit_payload = Some(expect_int_field(v, key)?);
    } else if str_eq(key, "emit_stats") {
        a.emit_stats = Some(expect_int_field(v, key)?);
    } else if str_eq(key, "allow_nondet_v1") {
        a.allow_nondet_v1 = Some(expect_flag(v, key)?);
    } else if str_eq(key, "typecheck_item_brands_v1") {
        a.typecheck_item_brands_v1 = Some(expect_flag(v, key)?);
    } else if str_eq(key, "auto_require_brand_v1") {
        a.auto_require_brand_v1 = Some(expect_flag(v, key)?);
    } else if str_eq(key, "brand_registry_ref_v1") {
        let module_id = expect_bytes_lit_text(v, "brand_registry_ref_v1 must be bytes")?;
        match validate_module_id(module_id.as_str()) {
            Ok(()) => {},
            Err(m) => {
                return Err(typing(m));
            },
        }
        a.brand_registry_ref_v1 = Some(module_id);
    } else if str_eq(key, "verify_produced_brands_v1") {
        a.verify_produced_brands_v1 = Some(expect_flag(v, key)?);
    } else {
        return Err(typing_with("unknown cfg field: ", key));
    }
    Ok(())
}

/// Reads `(std.stream.cfg_v1 (key value)...)`; fields apply in order and the
/// first bad one is the error.
pub fn parse_cfg_v1(expr: &Expr) -> (r: Result<PipeCfgV1, CompilerError>)
    ensures
        match cfg_spec(expr@) {
            Ok(c) => r matches Ok(x) && x@ == c,
            Err(m) => r matches Err(e) && is_typing_err(e, m),
        },
{
    let items = match expr {
        Expr::List { items, .. } => items,
        _ => {
            return Err(typing("std.stream.cfg_v1 must be a list".to_string()));
        },
    };
    proof {
        lemma_view_exprs(items@);
    }
    let head_ok = if items.len() > 0 {
        match items[0].as_ident() {
            Some(h) => str_eq(h, "std.stream.cfg_v1"),
            None => false,
        }
    } else {
        false
    };
    if !head_ok {
        return Err(typing("pipe cfg must be std.stream.cfg_v1".to_string()));
    }
    let ghost fields = view_exprs(items@).drop_first();
    let mut a = CfgSeen {
        chunk_max_bytes: None,
        bufread_cap_bytes: None,
        max_in_bytes: None,
        max_out_bytes: None,
        max_items: None,
        max_steps: None,
        emit_payload: None,
        emit_stats: None,
        allow_nondet_v1: None,
        typecheck_item_brands_v1: None,
        auto_require_brand_v1: None,
        brand_registry_ref_v1: None,
        verify_produced_brands_v1: None,
    };
    let mut i: usize = 1;
    assert(fields.take(0) =~= Seq::<ExprV>::empty());
    while i < items.len()
        invariant
            1 <= i <= items@.len(),
            fields == view_exprs(items@).drop_first(),
            view_exprs(items@).len() == items@.len(),
            forall|j: int| 0 <= j < items@.len() ==> #[trigger] view_exprs(items@)[j] == items@[j]@,
            cfg_fold(fields.take(i - 1)) == Ok::<CfgSeenV, Seq<char>>(a@),
            cfg_spec(expr@) == match cfg_fold(fields) {
                Err(m) => Err(m),
                Ok(c) => cfg_finish(c),
            },
        decreases items.len() - i,
    {
        let ghost nxt = fields.take(i as int);
        assert(nxt.drop_last() =~= fields.take(i - 1));
        assert(nxt.last() == items@[i as int]@);
        match apply_cfg_field(&mut a, &items[i]) {
            Ok(()) => {},
            Err(e) => {
                proof {
                    assert(cfg_fold(nxt) is Err);
                    lemma_cfg_err_prefix(fields, i as int);
                }
                return Err(e);
            },
        }
        i = i + 1;
    }
    assert(fields.take(i - 1) =~= fields);
    let chunk_max_bytes = match a.chunk_max_bytes {
        Some(x) => x,
        None => {
            return Err(typing("cfg missing chunk_max_bytes".to_string()));
        },
    };
    let bufread_cap_bytes = match a.bufread_cap_bytes {
        Some(x) => x,
        None => {
            return Err(typing("cfg missing bufread_cap_bytes".to_string()));
        },
    };
    let max_in_bytes = match a.max_in_bytes {
        Some(x) => x,
        None => {
            return Err(typing("cfg missing max_in_bytes".to_string()));
        },
    };
    let max_out_bytes = match a.max_out_bytes {
        Some(x) => x,
        None => {
            return Err(typing("cfg missing max_out_bytes".to_string()));
        },
    };
    let max_items = match a.max_items {
        Some(x) => x,
        None => {
            return Err(typing("cfg missing max_items".to_string()));
        },
    };
    Ok(
        PipeCfgV1 {
            chunk_max_bytes,
            bufread_cap_bytes,
            max_in_bytes,
            max_out_bytes,
            max_items,
            max_steps: a.max_steps,
            emit_payload: a.emit_payload,
            emit_stats: a.emit_stats,
            allow_nondet_v1: match a.allow_nondet_v1 {
                Some(x) => x,
                None => 0,
            },
            typecheck_item_brands_v1: match a.typecheck_item_brands_v1 {
                Some(x) => x,
                None => 1,
            },
            auto_require_brand_v1: match a.auto_require_brand_v1 {
                Some(x) => x,
                None => 0,
            },
            brand_registry_ref_v1: a.brand_registry_ref_v1,
            verify_produced_brands_v1: match a.verify_produced_brands_v1 {
                Some(x) => x,
                None => 0,
            },
        },
    )
}

proof fn lemma_cfg_err_prefix(t: Seq<ExprV>, k: int)
    requires
        0 <= k <= t.len(),
        cfg_fold(t.take(k)) is Err,
    ensures
        cfg_fold(t) == cfg_fold(t.take(k)),
    decreases t.len() - k,
{
    if k < t.len() {
        assert(t.take(k + 1).drop_last() =~= t.take(k));
        lemma_cfg_err_prefix(t, k + 1);
    } else {
        assert(t.take(k) =~= t);
    }
}


/// What a network source does when a read times out.
#[derive(Debug, Clone, Copy, PartialEq, Eq, Structural)]
pub enum NetOnTimeoutV1 {
    Error,
    Stop,
    StopIfClean,
}

/// What a network source does with the stream at end of input.
#[derive(Debug, Clone, Copy, PartialEq, Eq, Structural)]
pub enum NetOnEofV1 {
    LeaveOpen,
    ShutdownRead,
    Close,
}

/// A pipe source; `*_param` fields index the pipe's parameters.
#[derive(Debug, Clone, Copy, PartialEq, Eq, Structural)]
pub enum PipeSrcV1 {
    FsOpenRead { path_param: usize },
    RrSend { key_param: usize },
    Bytes { bytes_param: usize },
    DbRowsDoc { conn_param: usize, sql_param: usize, params_doc_param: usize, qcaps_doc_param: usize },
    NetTcpReadStreamHandle {
        stream_handle_param: usize,
        caps_param: usize,
        on_timeout: NetOnTimeoutV1,
        on_eof: NetOnEofV1,
    },
    NetTcpReadU32Frames {
        stream_handle_param: usize,
        caps_param: usize,
        max_frame_bytes: i32,
        allow_empty: i32,
        on_timeout: NetOnTimeoutV1,
        on_eof: NetOnEofV1,
    },
}

/// A parsed source with the brand it gives its items and its pointer.
#[derive(Debug)]
pub struct PipeSrcDescV1 {
    pub kind: PipeSrcV1,
    pub out_item_brand: Option<String>,
    pub ptr: String,
}

pub struct PipeSrcDescV {
    pub kind: PipeSrcV1,
    pub out_item_brand: Option<Seq<char>>,
    pub ptr: Seq<char>,
}

impl View for PipeSrcDescV1 {
    type V = PipeSrcDescV;

    open spec fn view(&self) -> PipeSrcDescV {
        PipeSrcDescV { kind: self.kind, out_item_brand: opt_str_view(self.out_item_brand), ptr: self.ptr@ }
    }
}

/// The brand tail of a positional source: only `out_item_brand` may follow.
pub open spec fn src_brand_tail(head: Seq<char>, tail: Seq<ExprV>) -> Result<Option<Seq<char>>, Seq<char>> {
    match kv_fields_spec(head, tail) {
        Err(m) => Err(m),
        Ok(fs) => match least_unknown(fs, seq!["out_item_brand"@]) {
            Some(k) => Err(head + " unknown field: "@ + k),
            None => opt_brand_id(fs, "out_item_brand"@),
        },
    }
}

/// `on_timeout` of a network source (`err` when absent; the other accepted
/// word is `stop`, or `stop_if_clean` for framed reads).
pub open spec fn on_timeout_spec(head: Seq<char>, fs: Seq<(Seq<char>, ExprV)>, framed: bool) -> Result<
    NetOnTimeoutV1,
    Seq<char>,
> {
    match field_get(fs, "on_timeout"@) {
        None => Ok(NetOnTimeoutV1::Error),
        Some(v) => if expr_ident(v) == Some("err"@) {
            Ok(NetOnTimeoutV1::Error)
        } else if !framed && expr_ident(v) == Some("stop"@) {
            Ok(NetOnTimeoutV1::Stop)
        } else if framed && expr_ident(v) == Some("stop_if_clean"@) {
            Ok(NetOnTimeoutV1::StopIfClean)
        } else if framed {
            Err(head + " on_timeout must be \"err\" or \"stop_if_clean\""@)
        } else {
            Err(head + " on_timeout must be \"err\" or \"stop\""@)
        },
    }
}

/// `on_eof` of a network source (`leave_open` when absent).
pub open spec fn on_eof_spec(head: Seq<char>, fs: Seq<(Seq<char>, ExprV)>) -> Result<NetOnEofV1, Seq<char>> {
    match field_get(fs, "on_eof"@) {
        None => Ok(NetOnEofV1::LeaveOpen),
        Some(v) => if expr_ident(v) == Some("leave_open"@) {
            Ok(NetOnEofV1::LeaveOpen)
        } else if expr_ident(v) == Some("shutdown_read"@) {
            Ok(NetOnEofV1::ShutdownRead)
        } else if expr_ident(v) == Some("close"@) {
            Ok(NetOnEofV1::Close)
        } else {
            Err(head + " on_eof must be \"leave_open\", \"shutdown_read\", or \"close\""@)
        },
    }
}

/// A source with one positional expression of type `ty`, then its brand.
pub open spec fn src_one_arg(head: Seq<char>, items: Seq<ExprV>, ptr: Seq<char>, n: nat, ty: Ty) -> Result<
    (PipeSrcDescV, Seq<(Ty, ExprV)>),
    Seq<char>,
> {
    if items.len() < 2 {
        Err(head + " expects at least 1 argument"@)
    } else {
        match expr_wrapper_inner(items[1]) {
            Err(m) => Err(m),
            Ok(a) => match src_brand_tail(head, items.skip(2)) {
                Err(m) => Err(m),
                Ok(b) => {
                    let kind = if head == "std.stream.src.fs_open_read_v1"@ {
                        PipeSrcV1::FsOpenRead { path_param: n as usize }
                    } else if head == "std.stream.src.rr_send_v1"@ {
                        PipeSrcV1::RrSend { key_param: n as usize }
                    } else {
                        PipeSrcV1::Bytes { bytes_param: n as usize }
                    };
                    Ok((PipeSrcDescV { kind, out_item_brand: b, ptr }, seq![(ty, a)]))
                },
            },
        }
    }
}

pub open spec fn src_db_rows(head: Seq<char>, items: Seq<ExprV>, ptr: Seq<char>, n: nat) -> Result<
    (PipeSrcDescV, Seq<(Ty, ExprV)>),
    Seq<char>,
> {
    if items.len() < 5 {
        Err(head + " expects at least 4 arguments"@)
    } else {
        match (
            expr_wrapper_inner(items[1]),
            expr_wrapper_inner(items[2]),
            expr_wrapper_inner(items[3]),
            expr_wrapper_inner(items[4]),
        ) {
            (Err(m), _, _, _) => Err(m),
            (Ok(_), Err(m), _, _) => Err(m),
            (Ok(_), Ok(_), Err(m), _) => Err(m),
            (Ok(_), Ok(_), Ok(_), Err(m)) => Err(m),
            (Ok(a1), Ok(a2), Ok(a3), Ok(a4)) => match src_brand_tail(head, items.skip(5)) {
                Err(m) => Err(m),
                Ok(b) => Ok(
                    (
                        PipeSrcDescV {
                            kind: PipeSrcV1::DbRowsDoc {
                                conn_param: n as usize,
                                sql_param: (n + 1) as usize,
                                params_doc_param: (n + 2) as usize,
                                qcaps_doc_param: (n + 3) as usize,
                            },
                            out_item_brand: b,
                            ptr,
                        },
                        seq![(Ty::I32, a1), (Ty::BytesView, a2), (Ty::Bytes, a3), (Ty::Bytes, a4)],
                    ),
                ),
            },
        }
    }
}

/// A network source read from its fields; `framed` is the `u32frames` form
/// with `max_frame_bytes` and `allow_empty`.
pub open spec fn src_net(head: Seq<char>, items: Seq<ExprV>, ptr: Seq<char>, n: nat, framed: bool) -> Result<
    (PipeSrcDescV, Seq<(Ty, ExprV)>),
    Seq<char>,
> {
    let allowed = if framed {
        seq![
            "stream_handle"@,
            "caps"@,
            "max_frame_bytes"@,
            "allow_empty"@,
            "on_timeout"@,
            "on_eof"@,
            "out_item_brand"@,
        ]
    } else {
        seq!["stream_handle"@, "caps"@, "on_timeout"@, "on_eof"@, "out_item_brand"@]
    };
    match kv_fields_spec(head, items.skip(1)) {
        Err(m) => Err(m),
        Ok(fs) => match least_unknown(fs, allowed) {
            Some(k) => Err(head + " unknown field: "@ + k),
            None => match (field_get(fs, "stream_handle"@), field_get(fs, "caps"@)) {
                (None, _) => Err(head + " missing stream_handle"@),
                (Some(_), None) => Err(head + " missing caps"@),
                (Some(sh), Some(cp)) => if framed && field_get(fs, "max_frame_bytes"@) is None {
                    Err(head + " missing max_frame_bytes"@)
                } else {
                    match (expr_wrapper_inner(sh), expr_wrapper_inner(cp)) {
                        (Err(m), _) => Err(m),
                        (Ok(_), Err(m)) => Err(m),
                        (Ok(a1), Ok(a2)) => {
                            let added = seq![(Ty::I32, a1), (Ty::Bytes, a2)];
                            let frame = if framed {
                                match int_field(field_get(fs, "max_frame_bytes"@)->0, "max_frame_bytes"@) {
                                    Err(m) => Err(m),
                                    Ok(mfb) => match field_get(fs, "allow_empty"@) {
                                        None => Ok((mfb, 1i32)),
                                        Some(v) => match int_field(v, "allow_empty"@) {
                                            Err(m) => Err(m),
                                            Ok(ae) => Ok((mfb, ae)),
                                        },
                                    },
                                }
                            } else {
                                Ok((0i32, 0i32))
                            };
                            match frame {
                                Err(m) => Err(m),
                                Ok((mfb, ae)) => match on_timeout_spec(head, fs, framed) {
                                    Err(m) => Err(m),
                                    Ok(ot) => match on_eof_spec(head, fs) {
                                        Err(m) => Err(m),
                                        Ok(oe) => match opt_brand_id(fs, "out_item_brand"@) {
                                            Err(m) => Err(m),
                                            Ok(b) => {
                                                let kind = if framed {
                                                    PipeSrcV1::NetTcpReadU32Frames {
                                                        stream_handle_param: n as usize,
                                                        caps_param: (n + 1) as usize,
                                                        max_frame_bytes: mfb,
                                                        allow_empty: ae,
                                                        on_timeout: ot,
                                                        on_eof: oe,
                                                    }
                                                } else {
                                                    PipeSrcV1::NetTcpReadStreamHandle {
                                                        stream_handle_param: n as usize,
                                                        caps_param: (n + 1) as usize,
                                                        on_timeout: ot,
                                                        on_eof: oe,
                                                    }
                                                };
                                                Ok((PipeSrcDescV { kind, out_item_brand: b, ptr }, added))
                                            },
                                        },
                                    },
                                },
                            }
                        },
                    }
                },
            },
        },
    }
}

/// A pipe source read from its expression, given `n` parameters before it:
/// the descriptor and the parameters it adds, or the error.
pub open spec fn src_spec(e: ExprV, n: nat) -> Result<(PipeSrcDescV, Seq<(Ty, ExprV)>), Seq<char>> {
    match e {
        ExprV::List(items, ptr) => match head_ident(items) {
            None => Err("pipe src must start with an identifier"@),
            Some(head) => if head == "std.stream.src.fs_open_read_v1"@ {
                src_one_arg(head, items, ptr, n, Ty::BytesView)
            } else if head == "std.stream.src.rr_send_v1"@ {
                src_one_arg(head, items, ptr, n, Ty::BytesView)
            } else if head == "std.stream.src.bytes_v1"@ {
                src_one_arg(head, items, ptr, n, Ty::Bytes)
            } else if head == "std.stream.src.db_rows_doc_v1"@ {
                src_db_rows(head, items, ptr, n)
            } else if head == "std.stream.src.net_tcp_read_stream_handle_v1"@ {
                src_net(head, items, ptr, n, false)
            } else if head == "std.stream.src.net_tcp_read_u32frames_v1"@ {
                src_net(head, items, ptr, n, true)
            } else {
                Err("unsupported pipe src: "@ + head)
            },
        },
        _ => Err("pipe src must be a list"@),
    }
}


fn src_out_brand(head: &str, items: &Vec<Expr>, start: usize) -> (r: Result<Option<String>, CompilerError>)
    requires
        start <= items@.len(),
    ensures
        match src_brand_tail(head@, view_exprs(items@).skip(start as int)) {
            Ok(b) => r matches Ok(x) && opt_str_view(x) == b,
            Err(m) => r matches Err(e) && is_typing_err(e, m),
        },
{
    let fields = parse_kv_fields(head, items, start)?;
    let mut allowed: Vec<&str> = Vec::new();
    allowed.push("out_item_brand");
    assert(strs_view(allowed@) =~= seq!["out_item_brand"@]);
    check_known_fields(head, &fields, &allowed)?;
    parse_opt_brand_id(&fields, "out_item_brand")
}

fn parse_on_timeout(head: &str, fields: &Vec<(String, Expr)>, framed: bool) -> (r: Result<
    NetOnTimeoutV1,
    CompilerError,
>)
    ensures
        match on_timeout_spec(head@, fields_view(fields@), framed) {
            Ok(t) => r == Ok::<NetOnTimeoutV1, CompilerError>(t),
            Err(m) => r matches Err(e) && is_typing_err(e, m),
        },
{
    let v = match field_value(fields, "on_timeout") {
        None => {
            return Ok(NetOnTimeoutV1::Error);
        },
        Some(v) => v,
    };
    let word = v.as_ident();
    if let Some(w) = word {
        if str_eq(w, "err") {
            return Ok(NetOnTimeoutV1::Error);
        }
        if !framed && str_eq(w, "stop") {
            return Ok(NetOnTimeoutV1::Stop);
        }
        if framed && str_eq(w, "stop_if_clean") {
            return Ok(NetOnTimeoutV1::StopIfClean);
        }
    }
    if framed {
        Err(typing_with(head, " on_timeout must be \"err\" or \"stop_if_clean\""))
    } else {
        Err(typing_with(head, " on_timeout must be \"err\" or \"stop\""))
    }
}

fn parse_on_eof(head: &str, fields: &Vec<(String, Expr)>) -> (r: Result<NetOnEofV1, CompilerError>)
    ensures
        match on_eof_spec(head@, fields_view(fields@)) {
            Ok(t) => r == Ok::<NetOnEofV1, CompilerError>(t),
            Err(m) => r matches Err(e) && is_typing_err(e, m),
        },
{
    let v = match field_value(fields, "on_eof") {
        None => {
            return Ok(NetOnEofV1::LeaveOpen);
        },
        Some(v) => v,
    };
    if let Some(w) = v.as_ident() {
        if str_eq(w, "leave_open") {
            return Ok(NetOnEofV1::LeaveOpen);
        }
        if str_eq(w, "shutdown_read") {
            return Ok(NetOnEofV1::ShutdownRead);
        }
        if str_eq(w, "close") {
            return Ok(NetOnEofV1::Close);
        }
    }
    Err(typing_with(head, " on_eof must be \"leave_open\", \"shutdown_read\", or \"close\""))
}

/// The ensures of the source parsers: the descriptor and the parameters
/// appended, or the error.
pub open spec fn src_result(
    s: Result<(PipeSrcDescV, Seq<(Ty, ExprV)>), Seq<char>>,
    r: Result<PipeSrcDescV1, CompilerError>,
    before: Seq<PipeParam>,
    after: Seq<PipeParam>,
) -> bool {
    match s {
        Ok((d, added)) => r matches Ok(x) && x@ == d && params_view(after) == params_view(before) + added,
        Err(m) => r matches Err(e) && is_typing_err(e, m),
    }
}

fn parse_src_one_arg(head: &str, items: &Vec<Expr>, ptr: &str, params: &mut Vec<PipeParam>, ty: Ty) -> (r:
    Result<PipeSrcDescV1, CompilerError>)
    ensures
        src_result(src_one_arg(head@, view_exprs(items@), ptr@, old(params)@.len(), ty), r, old(params)@, final(params)@),
{
    proof {
        lemma_view_exprs(items@);
    }
    if items.len() < 2 {
        return Err(typing_with(head, " expects at least 1 argument"));
    }
    let idx = parse_expr_v1(params, ty, &items[1])?;
    let out_item_brand = src_out_brand(head, items, 2)?;
    let kind = if str_eq(head, "std.stream.src.fs_open_read_v1") {
        PipeSrcV1::FsOpenRead { path_param: idx }
    } else if str_eq(head, "std.stream.src.rr_send_v1") {
        PipeSrcV1::RrSend { key_param: idx }
    } else {
        PipeSrcV1::Bytes { bytes_param: idx }
    };
    proof {
        let a = match expr_wrapper_inner(items@[1]@) {
            Ok(x) => x,
            Err(_) => items@[1]@,
        };
        assert(params_view(old(params)@).push((ty, a)) =~= params_view(old(params)@) + seq![(ty, a)]);
    }
    Ok(PipeSrcDescV1 { kind, out_item_brand, ptr: ptr.to_string() })
}

fn parse_src_db_rows(head: &str, items: &Vec<Expr>, ptr: &str, params: &mut Vec<PipeParam>) -> (r: Result<
    PipeSrcDescV1,
    CompilerError,
>)
    ensures
        src_result(src_db_rows(head@, view_exprs(items@), ptr@, old(params)@.len()), r, old(params)@, final(params)@),
{
    proof {
        lemma_view_exprs(items@);
    }
    if items.len() < 5 {
        return Err(typing_with(head, " expects at least 4 arguments"));
    }
    let conn_param = parse_expr_v1(params, Ty::I32, &items[1])?;
    let sql_param = parse_expr_v1(params, Ty::BytesView, &items[2])?;
    let params_doc_param = parse_expr_v1(params, Ty::Bytes, &items[3])?;
    let qcaps_doc_param = parse_expr_v1(params, Ty::Bytes, &items[4])?;
    let out_item_brand = src_out_brand(head, items, 5)?;
    proof {
        let a = Seq::new(5, |j: int| match expr_wrapper_inner(items@[j]@) {
            Ok(x) => x,
            Err(_) => items@[j]@,
        });
        assert(params_view(params@) =~= params_view(old(params)@) + seq![
            (Ty::I32, a[1]),
            (Ty::BytesView, a[2]),
            (Ty::Bytes, a[3]),
            (Ty::Bytes, a[4]),
        ]);
    }
    Ok(
        PipeSrcDescV1 {
            kind: PipeSrcV1::DbRowsDoc { conn_param, sql_param, params_doc_param, qcaps_doc_param },
            out_item_brand,
            ptr: ptr.to_string(),
        },
    )
}

#[verifier::rlimit(60)]
fn parse_src_net(head: &str, items: &Vec<Expr>, ptr: &str, params: &mut Vec<PipeParam>, framed: bool) -> (r:
    Result<PipeSrcDescV1, CompilerError>)
    requires
        items@.len() >= 1,
    ensures
        src_result(src_net(head@, view_exprs(items@), ptr@, old(params)@.len(), framed), r, old(params)@, final(params)@),
{
    proof {
        lemma_view_exprs(items@);
    }
    let fields = parse_kv_fields(head, items, 1)?;
    let ghost fs = fields_view(fields@);
    let mut allowed: Vec<&str> = Vec::new();
    allowed.push("stream_handle");
    allowed.push("caps");
    if framed {
        allowed.push("max_frame_bytes");
        allowed.push("allow_empty");
    }
    allowed.push("on_timeout");
    allowed.push("on_eof");
    allowed.push("out_item_brand");
    proof {
        if framed {
            assert(strs_view(allowed@) =~= seq![
                "stream_handle"@,
                "caps"@,
                "max_frame_bytes"@,
                "allow_empty"@,
                "on_timeout"@,
                "on_eof"@,
                "out_item_brand"@,
            ]);
        } else {
            assert(strs_view(allowed@) =~= seq!["stream_handle"@, "caps"@, "on_timeout"@, "on_eof"@, "out_item_brand"@]);
        }
    }
    check_known_fields(head, &fields, &allowed)?;
    let sh = match field_value(&fields, "stream_handle") {
        Some(v) => v,
        None => {
            return Err(typing_with(head, " missing stream_handle"));
        },
    };
    let cp = match field_value(&fields, "caps") {
        Some(v) => v,
        None => {
            return Err(typing_with(head, " missing caps"));
        },
    };
    let mfb_expr = field_value(&fields, "max_frame_bytes");
    if framed && mfb_expr.is_none() {
        return Err(typing_with(head, " missing max_frame_bytes"));
    }
    let stream_handle_param = parse_expr_v1(params, Ty::I32, sh)?;
    let caps_param = parse_expr_v1(params, Ty::Bytes, cp)?;
    proof {
        let a1 = match expr_wrapper_inner(sh@) {
            Ok(x) => x,
            Err(_) => sh@,
        };
        let a2 = match expr_wrapper_inner(cp@) {
            Ok(x) => x,
            Err(_) => cp@,
        };
        assert(params_view(params@) =~= params_view(old(params)@) + seq![(Ty::I32, a1), (Ty::Bytes, a2)]);
    }
    let mut max_frame_bytes: i32 = 0;
    let mut allow_empty: i32 = 0;
    if framed {
        let mv = match mfb_expr {
            Some(v) => v,
            None => {
                return Err(typing_with(head, " missing max_frame_bytes"));
            },
        };
        max_frame_bytes = expect_int_field(mv, "max_frame_bytes")?;
        allow_empty = match field_value(&fields, "allow_empty") {
            None => 1,
            Some(v) => expect_int_field(v, "allow_empty")?,
        };
    }
    let on_timeout = parse_on_timeout(head, &fields, framed)?;
    let on_eof = parse_on_eof(head, &fields)?;
    let out_item_brand = parse_opt_brand_id(&fields, "out_item_brand")?;
    let kind = if framed {
        PipeSrcV1::NetTcpReadU32Frames {
            stream_handle_param,
            caps_param,
            max_frame_bytes,
            allow_empty,
            on_timeout,
            on_eof,
        }
    } else {
        PipeSrcV1::NetTcpReadStreamHandle { stream_handle_param, caps_param, on_timeout, on_eof }
    };
    Ok(PipeSrcDescV1 { kind, out_item_brand, ptr: ptr.to_string() })
}

/// Reads a pipe source, appending the expressions it takes to `params`.
pub fn parse_src_v1(expr: &Expr, params: &mut Vec<PipeParam>) -> (r: Result<PipeSrcDescV1, CompilerError>)
    ensures
        src_result(src_spec(expr@, old(params)@.len()), r, old(params)@, final(params)@),
{
    let items = match expr {
        Expr::List { items, .. } => items,
        _ => {
            return Err(typing("pipe src must be a list".to_string()));
        },
    };
    proof {
        lemma_view_exprs(items@);
    }
    let ptr = expr.ptr();
    let head = if items.len() > 0 {
        match items[0].as_ident() {
            Some(h) => h,
            None => {
                return Err(typing("pipe src must start with an identifier".to_string()));
            },
        }
    } else {
        return Err(typing("pipe src must start with an identifier".to_string()));
    };
    if str_eq(head, "std.stream.src.fs_open_read_v1") || str_eq(head, "std.stream.src.rr_send_v1") {
        parse_src_one_arg(head, items, ptr, params, Ty::BytesView)
    } else if str_eq(head, "std.stream.src.bytes_v1") {
        parse_src_one_arg(head, items, ptr, params, Ty::Bytes)
    } else if str_eq(head, "std.stream.src.db_rows_doc_v1") {
        parse_src_db_rows(head, items, ptr, params)
    } else if str_eq(head, "std.stream.src.net_tcp_read_stream_handle_v1") {
        parse_src_net(head, items, ptr, params, false)
    } else if str_eq(head, "std.stream.src.net_tcp_read_u32frames_v1") {
        parse_src_net(head, items, ptr, params, true)
    } else {
        Err(typing_with("unsupported pipe src: ", head))
    }
}


/// Reads `(std.stream.fn_v1 <ident>)` as a function name.
pub fn parse_fn_v1(wrapper: &Expr) -> (r: Result<String, CompilerError>)
    ensures
        match fn_wrapper_name(wrapper@) {
            Ok(n) => r matches Ok(s) && s@ == n,
            Err(m) => r matches Err(e) && is_typing_err(e, m),
        },
{
    match wrapper {
        Expr::List { items, .. } => {
            proof {
                lemma_view_exprs(items@);
            }
            let ok_head = if items.len() == 2 {
                match items[0].as_ident() {
                    Some(h) => str_eq(h, "std.stream.fn_v1"),
                    None => false,
                }
            } else {
                false
            };
            if !ok_head {
                return Err(typing("expected std.stream.fn_v1 wrapper".to_string()));
            }
            match items[1].as_ident() {
                Some(n) => Ok(n.to_string()),
                None => Err(typing("std.stream.fn_v1 expects a function identifier".to_string())),
            }
        },
        _ => Err(typing("std.stream.fn_v1 wrapper must be a list".to_string())),
    }
}

/// What a deframer does with a truncated last frame.
#[derive(Debug, Clone, Copy, PartialEq, Eq, Structural)]
pub enum DeframeOnTruncatedV1 {
    Error,
    Drop,
}

/// Limits of the streaming JSON canonicalizer (0 = default).
#[derive(Debug, Clone, Copy, PartialEq, Eq, Structural)]
pub struct JsonCanonStreamCfgV1 {
    pub max_depth: i32,
    pub max_total_json_bytes: i32,
    pub max_object_members: i32,
    pub max_object_total_bytes: i32,
    pub emit_chunk_max_bytes: i32,
}

/// Settings of the `u32le` deframer.
#[derive(Debug, Clone, Copy, PartialEq, Eq, Structural)]
pub struct DeframeU32LeCfgV1 {
    pub max_frame_bytes: i32,
    pub max_frames: i32,
    pub allow_empty: i32,
    pub on_truncated: DeframeOnTruncatedV1,
}

/// Settings of a parallel map stage.
#[derive(Debug)]
pub struct ParMapStreamCfgV1 {
    pub max_inflight: i32,
    pub max_item_bytes: i32,
    pub max_inflight_in_bytes: i32,
    pub max_out_item_bytes: i32,
    pub ctx_param: Option<usize>,
    pub mapper_defasync: String,
    pub scope_cfg: Expr,
    pub unordered: bool,
    pub result_bytes: bool,
}

pub struct ParMapStreamCfgV {
    pub max_inflight: i32,
    pub max_item_bytes: i32,
    pub max_inflight_in_bytes: i32,
    pub max_out_item_bytes: i32,
    pub ctx_param: Option<usize>,
    pub mapper_defasync: Seq<char>,
    pub scope_cfg: ExprV,
    pub unordered: bool,
    pub result_bytes: bool,
}

/// A pipe transform; `*_param` fields index the pipe's parameters.
#[derive(Debug)]
pub enum PipeXfV1 {
    MapBytes { fn_id: String },
    Filter { fn_id: String },
    RequireBrandV1 { brand_id: String, validator_id: Option<String>, max_item_bytes: i32 },
    Take { n_param: usize },
    SplitLines { delim_param: usize, max_line_bytes_param: usize },
    FrameU32Le,
    MapInPlaceBufV1 { scratch_cap_bytes: i32, clear_before_each: i32, fn_id: String },
    JsonCanonStreamV1 { cfg: JsonCanonStreamCfgV1 },
    DeframeU32LeV1 { cfg: DeframeU32LeCfgV1 },
    PluginV1 { plugin_id: String, cfg_param: usize, strict_brands: i32, strict_cfg_canon: i32 },
    ParMapStreamV1 { cfg: ParMapStreamCfgV1 },
}

pub enum PipeXfV {
    MapBytes { fn_id: Seq<char> },
    Filter { fn_id: Seq<char> },
    RequireBrandV1 { brand_id: Seq<char>, validator_id: Option<Seq<char>>, max_item_bytes: i32 },
    Take { n_param: usize },
    SplitLines { delim_param: usize, max_line_bytes_param: usize },
    FrameU32Le,
    MapInPlaceBufV1 { scratch_cap_bytes: i32, clear_before_each: i32, fn_id: Seq<char> },
    JsonCanonStreamV1 { cfg: JsonCanonStreamCfgV1 },
    DeframeU32LeV1 { cfg: DeframeU32LeCfgV1 },
    PluginV1 { plugin_id: Seq<char>, cfg_param: usize, strict_brands: i32, strict_cfg_canon: i32 },
    ParMapStreamV1 { cfg: ParMapStreamCfgV },
}

impl View for ParMapStreamCfgV1 {
    type V = ParMapStreamCfgV;

    open spec fn view(&self) -> ParMapStreamCfgV {
        ParMapStreamCfgV {
            max_inflight: self.max_inflight,
            max_item_bytes: self.max_item_bytes,
            max_inflight_in_bytes: self.max_inflight_in_bytes,
            max_out_item_bytes: self.max_out_item_bytes,
            ctx_param: self.ctx_param,
            mapper_defasync: self.mapper_defasync@,
            scope_cfg: self.scope_cfg@,
            unordered: self.unordered,
            result_bytes: self.result_bytes,
        }
    }
}

impl View for PipeXfV1 {
    type V = PipeXfV;

    open spec fn view(&self) -> PipeXfV {
        match self {
            PipeXfV1::MapBytes { fn_id } => PipeXfV::MapBytes { fn_id: fn_id@ },
            PipeXfV1::Filter { fn_id } => PipeXfV::Filter { fn_id: fn_id@ },
            PipeXfV1::RequireBrandV1 { brand_id, validator_id, max_item_bytes } => PipeXfV::RequireBrandV1 {
                brand_id: brand_id@,
                validator_id: opt_str_view(*validator_id),
                max_item_bytes: *max_item_bytes,
            },
            PipeXfV1::Take { n_param } => PipeXfV::Take { n_param: *n_param },
            PipeXfV1::SplitLines { delim_param, max_line_bytes_param } => PipeXfV::SplitLines {
                delim_param: *delim_param,
                max_line_bytes_param: *max_line_bytes_param,
            },
            PipeXfV1::FrameU32Le => PipeXfV::FrameU32Le,
            PipeXfV1::MapInPlaceBufV1 { scratch_cap_bytes, clear_before_each, fn_id } => PipeXfV::MapInPlaceBufV1 {
                scratch_cap_bytes: *scratch_cap_bytes,
                clear_before_each: *clear_before_each,
                fn_id: fn_id@,
            },
            PipeXfV1::JsonCanonStreamV1 { cfg } => PipeXfV::JsonCanonStreamV1 { cfg: *cfg },
            PipeXfV1::DeframeU32LeV1 { cfg } => PipeXfV::DeframeU32LeV1 { cfg: *cfg },
            PipeXfV1::PluginV1 { plugin_id, cfg_param, strict_brands, strict_cfg_canon } => PipeXfV::PluginV1 {
                plugin_id: plugin_id@,
                cfg_param: *cfg_param,
                strict_brands: *strict_brands,
                strict_cfg_canon: *strict_cfg_canon,
            },
            PipeXfV1::ParMapStreamV1 { cfg } => PipeXfV::ParMapStreamV1 { cfg: cfg@ },
        }
    }
}

/// A parsed transform with the brands it takes and gives and its pointer.
#[derive(Debug)]
pub struct PipeXfDescV1 {
    pub kind: PipeXfV1,
    pub in_item_brand: Option<PipeItemBrandInV1>,
    pub out_item_brand: Option<PipeItemBrandOutV1>,
    pub ptr: String,
}

pub struct PipeXfDescV {
    pub kind: PipeXfV,
    pub in_item_brand: Option<BrandInV>,
    pub out_item_brand: Option<BrandOutV>,
    pub ptr: Seq<char>,
}

impl View for PipeXfDescV1 {
    type V = PipeXfDescV;

    open spec fn view(&self) -> PipeXfDescV {
        PipeXfDescV {
            kind: self.kind@,
            in_item_brand: opt_in_view(self.in_item_brand),
            out_item_brand: opt_out_view(self.out_item_brand),
            ptr: self.ptr@,
        }
    }
}

/// A transform's kind, its brands and the parameters it adds.
pub struct XfParsedV {
    pub kind: PipeXfV,
    pub in_item_brand: Option<BrandInV>,
    pub out_item_brand: Option<BrandOutV>,
    pub added: Seq<(Ty, ExprV)>,
}

/// The inner expression of a wrapper known to be well formed.
pub open spec fn wrapped(w: ExprV) -> ExprV {
    match expr_wrapper_inner(w) {
        Ok(x) => x,
        Err(_) => w,
    }
}

/// The brand fields that follow a transform's positional arguments.
pub open spec fn xf_tail(head: Seq<char>, tail: Seq<ExprV>) -> Result<(Option<BrandInV>, Option<BrandOutV>), Seq<char>> {
    match kv_fields_spec(head, tail) {
        Err(m) => Err(m),
        Ok(fs) => xf_brand_fields_spec(head, fs),
    }
}

/// `map_bytes` and `filter`: a function, then brand fields.
pub open spec fn xf_fn_arg(head: Seq<char>, items: Seq<ExprV>) -> Result<XfParsedV, Seq<char>> {
    if items.len() < 2 {
        Err(head + " expects at least 1 argument"@)
    } else {
        match fn_wrapper_name(items[1]) {
            Err(m) => Err(m),
            Ok(f) => match xf_tail(head, items.skip(2)) {
                Err(m) => Err(m),
                Ok((i, o)) => Ok(
                    XfParsedV {
                        kind: if head == "std.stream.xf.map_bytes_v1"@ {
                            PipeXfV::MapBytes { fn_id: f }
                        } else {
                            PipeXfV::Filter { fn_id: f }
                        },
                        in_item_brand: i,
                        out_item_brand: o,
                        added: Seq::empty(),
                    },
                ),
            },
        }
    }
}

/// `take` (one `i32` expression) and `split_lines` (two), then brand fields.
pub open spec fn xf_exprs(head: Seq<char>, items: Seq<ExprV>, n: nat, two: bool) -> Result<XfParsedV, Seq<char>> {
    let k: int = if two { 2 } else { 1 };
    if items.len() < k + 1 {
        if two {
            Err(head + " expects at least 2 arguments"@)
        } else {
            Err(head + " expects at least 1 argument"@)
        }
    } else {
        match expr_wrapper_inner(items[1]) {
            Err(m) => Err(m),
            Ok(a1) => {
                let second = if two {
                    expr_wrapper_inner(items[2])
                } else {
                    Ok(a1)
                };
                match second {
                    Err(m) => Err(m),
                    Ok(a2) => match xf_tail(head, items.skip(k + 1)) {
                        Err(m) => Err(m),
                        Ok((i, o)) => Ok(
                            XfParsedV {
                                kind: if two {
                                    PipeXfV::SplitLines {
                                        delim_param: n as usize,
                                        max_line_bytes_param: (n + 1) as usize,
                                    }
                                } else {
                                    PipeXfV::Take { n_param: n as usize }
                                },
                                in_item_brand: i,
                                out_item_brand: o,
                                added: if two {
                                    seq![(Ty::I32, a1), (Ty::I32, a2)]
                                } else {
                                    seq![(Ty::I32, a1)]
                                },
                            },
                        ),
                    },
                }
            },
        }
    }
}

/// An optional integer field with a default.
pub open spec fn opt_int(fs: Seq<(Seq<char>, ExprV)>, key: Seq<char>, dflt: i32) -> Result<i32, Seq<char>> {
    match field_get(fs, key) {
        None => Ok(dflt),
        Some(v) => int_field(v, key),
    }
}

/// A required integer field.
pub open spec fn req_int(head: Seq<char>, fs: Seq<(Seq<char>, ExprV)>, key: Seq<char>) -> Result<i32, Seq<char>> {
    match field_get(fs, key) {
        None => Err(head + " missing "@ + key),
        Some(v) => int_field(v, key),
    }
}

/// `require_brand`: brand, optional validator and item limit; no brand fields.
pub open spec fn xf_require_brand(head: Seq<char>, items: Seq<ExprV>) -> Result<XfParsedV, Seq<char>> {
    match kv_fields_spec(head, items.skip(1)) {
        Err(m) => Err(m),
        Ok(fs) => match least_unknown(fs, seq!["brand"@, "validator"@, "max_item_bytes"@]) {
            Some(k) => Err(head + " unknown field: "@ + k),
            None => match field_get(fs, "brand"@) {
                None => Err(head + " missing brand"@),
                Some(bv) => match brand_id_spec(bv, "brand"@) {
                    Err(m) => Err(m),
                    Ok(b) => {
                        let validator = match field_get(fs, "validator"@) {
                            None => Ok(None),
                            Some(v) => match expr_ident(v) {
                                None => Err(head + " validator must be an identifier"@),
                                Some(id) => match module_id_error(id) {
                                    Some(m) => Err(m),
                                    None => Ok(Some(id)),
                                },
                            },
                        };
                        match validator {
                            Err(m) => Err(m),
                            Ok(val) => match opt_int(fs, "max_item_bytes"@, 0) {
                                Err(m) => Err(m),
                                Ok(mib) => if mib < 0 {
                                    Err(head + " max_item_bytes must be >= 0"@)
                                } else {
                                    Ok(
                                        XfParsedV {
                                            kind: PipeXfV::RequireBrandV1 {
                                                brand_id: b,
                                                validator_id: val,
                                                max_item_bytes: mib,
                                            },
                                            in_item_brand: None,
                                            out_item_brand: None,
                                            added: Seq::empty(),
                                        },
                                    )
                                },
                            },
                        }
                    },
                },
            },
        },
    }
}

/// The brands of a transform whose other fields were already read.
pub open spec fn xf_brands(fs: Seq<(Seq<char>, ExprV)>) -> Result<(Option<BrandInV>, Option<BrandOutV>), Seq<char>> {
    match opt_brand_in(fs) {
        Err(m) => Err(m),
        Ok(i) => match opt_brand_out(fs) {
            Err(m) => Err(m),
            Ok(o) => Ok((i, o)),
        },
    }
}

/// An optional positive limit (0 when absent).
pub open spec fn opt_pos(head: Seq<char>, fs: Seq<(Seq<char>, ExprV)>, key: Seq<char>) -> Result<i32, Seq<char>> {
    match field_get(fs, key) {
        None => Ok(0),
        Some(v) => match int_field(v, key) {
            Err(m) => Err(m),
            Ok(x) => if x <= 0 {
                Err(head + " "@ + key + " must be >= 1"@)
            } else {
                Ok(x)
            },
        },
    }
}

pub open spec fn xf_json_canon(head: Seq<char>, items: Seq<ExprV>) -> Result<XfParsedV, Seq<char>> {
    match kv_fields_spec(head, items.skip(1)) {
        Err(m) => Err(m),
        Ok(fs) => match least_unknown(
            fs,
            seq![
                "max_depth"@,
                "max_total_json_bytes"@,
                "max_object_members"@,
                "max_object_total_bytes"@,
                "emit_chunk_max_bytes"@,
                "in_item_brand"@,
                "out_item_brand"@,
            ],
        ) {
            Some(k) => Err(head + " unknown field: "@ + k),
            None => match (
                opt_pos(head, fs, "max_depth"@),
                opt_pos(head, fs, "max_total_json_bytes"@),
                opt_pos(head, fs, "max_object_members"@),
                opt_pos(head, fs, "max_object_total_bytes"@),
                opt_pos(head, fs, "emit_chunk_max_bytes"@),
            ) {
                (Err(m), _, _, _, _) => Err(m),
                (Ok(_), Err(m), _, _, _) => Err(m),
                (Ok(_), Ok(_), Err(m), _, _) => Err(m),
                (Ok(_), Ok(_), Ok(_), Err(m), _) => Err(m),
                (Ok(_), Ok(_), Ok(_), Ok(_), Err(m)) => Err(m),
                (Ok(a), Ok(b), Ok(c), Ok(d), Ok(e)) => match xf_brands(fs) {
                    Err(m) => Err(m),
                    Ok((i, o)) => Ok(
                        XfParsedV {
                            kind: PipeXfV::JsonCanonStreamV1 {
                                cfg: JsonCanonStreamCfgV1 {
                                    max_depth: a,
                                    max_total_json_bytes: b,
                                    max_object_members: c,
                                    max_object_total_bytes: d,
                                    emit_chunk_max_bytes: e,
                                },
                            },
                            in_item_brand: i,
                            out_item_brand: o,
                            added: Seq::empty(),
                        },
                    ),
                },
            },
        },
    }
}

pub open spec fn xf_deframe(head: Seq<char>, items: Seq<ExprV>) -> Result<XfParsedV, Seq<char>> {
    match kv_fields_spec(head, items.skip(1)) {
        Err(m) => Err(m),
        Ok(fs) => match least_unknown(
            fs,
            seq![
                "max_frame_bytes"@,
                "max_frames"@,
                "allow_empty"@,
                "on_truncated"@,
                "in_item_brand"@,
                "out_item_brand"@,
            ],
        ) {
            Some(k) => Err(head + " unknown field: "@ + k),
            None => match (
                req_int(head, fs, "max_frame_bytes"@),
                opt_int(fs, "max_frames"@, 0),
                opt_int(fs, "allow_empty"@, 1),
            ) {
                (Err(m), _, _) => Err(m),
                (Ok(_), Err(m), _) => Err(m),
                (Ok(_), Ok(_), Err(m)) => Err(m),
                (Ok(mfb), Ok(mf), Ok(ae)) => {
                    let trunc = match field_get(fs, "on_truncated"@) {
                        None => Ok(DeframeOnTruncatedV1::Error),
                        Some(v) => if expr_ident(v) == Some("err"@) {
                            Ok(DeframeOnTruncatedV1::Error)
                        } else if expr_ident(v) == Some("drop"@) {
                            Ok(DeframeOnTruncatedV1::Drop)
                        } else {
                            Err(head + " on_truncated must be \"err\" or \"drop\""@)
                        },
                    };
                    match trunc {
                        Err(m) => Err(m),
                        Ok(t) => match xf_brands(fs) {
                            Err(m) => Err(m),
                            Ok((i, o)) => Ok(
                                XfParsedV {
                                    kind: PipeXfV::DeframeU32LeV1 {
                                        cfg: DeframeU32LeCfgV1 {
                                            max_frame_bytes: mfb,
                                            max_frames: mf,
                                            allow_empty: ae,
                                            on_truncated: t,
                                        },
                                    },
                                    in_item_brand: i,
                                    out_item_brand: o,
                                    added: Seq::empty(),
                                },
                            ),
                        },
                    }
                },
            },
        },
    }
}


/// The settings of `map_in_place_buf` seen so far.
pub struct MipSeenV {
    pub scratch_cap_bytes: Option<i32>,
    pub clear_before_each: Option<i32>,
    pub fn_id: Option<Seq<char>>,
    pub in_item_brand: Option<BrandInV>,
    pub out_item_brand: Option<BrandOutV>,
}

/// One item of `map_in_place_buf`: a bare `std.stream.fn_v1` or a pair; each
/// setting may appear once.
pub open spec fn mip_step(head: Seq<char>, a: MipSeenV, item: ExprV) -> Result<MipSeenV, Seq<char>> {
    match item {
        ExprV::List(inner, _) => if head_ident(inner) == Some("std.stream.fn_v1"@) {
            match fn_wrapper_name(item) {
                Err(m) => Err(m),
                Ok(f) => if a.fn_id is Some {
                    Err(head + " has duplicate fn"@)
                } else {
                    Ok(MipSeenV { fn_id: Some(f), ..a })
                },
            }
        } else if inner.len() != 2 {
            Err(head + " fields must be pairs"@)
        } else {
            match expr_ident(inner[0]) {
                None => Err(head + " field key must be an identifier"@),
                Some(key) => {
                    let v = inner[1];
                    if key == "scratch_cap_bytes"@ {
                        match int_field(v, key) {
                            Err(m) => Err(m),
                            Ok(x) => if x <= 0 {
                                Err(head + " scratch_cap_bytes must be >= 1"@)
                            } else if a.scratch_cap_bytes is Some {
                                Err(head + " has duplicate scratch_cap_bytes"@)
                            } else {
                                Ok(MipSeenV { scratch_cap_bytes: Some(x), ..a })
                            },
                        }
                    } else if key == "clear_before_each"@ {
                        match int_field(v, key) {
                            Err(m) => Err(m),
                            Ok(x) => if a.clear_before_each is Some {
                                Err(head + " has duplicate clear_before_each"@)
                            } else {
                                Ok(MipSeenV { clear_before_each: Some(x), ..a })
                            },
                        }
                    } else if key == "fn"@ {
                        match fn_wrapper_name(v) {
                            Err(m) => Err(m),
                            Ok(f) => if a.fn_id is Some {
                                Err(head + " has duplicate fn"@)
                            } else {
                                Ok(MipSeenV { fn_id: Some(f), ..a })
                            },
                        }
                    } else if key == "in_item_brand"@ {
                        if a.in_item_brand is Some {
                            Err(head + " has duplicate in_item_brand"@)
                        } else {
                            match brand_in_spec(v, "in_item_brand"@) {
                                Err(m) => Err(m),
                                Ok(b) => Ok(MipSeenV { in_item_brand: Some(b), ..a }),
                            }
                        }
                    } else if key == "out_item_brand"@ {
                        if a.out_item_brand is Some {
                            Err(head + " has duplicate out_item_brand"@)
                        } else {
                            match brand_out_spec(v, "out_item_brand"@) {
                                Err(m) => Err(m),
                                Ok(b) => Ok(MipSeenV { out_item_brand: Some(b), ..a }),
                            }
                        }
                    } else {
                        Err(head + " unknown field: "@ + key)
                    }
                },
            }
        },
        _ => Err(head + " items must be lists"@),
    }
}

pub open spec fn mip_fold(head: Seq<char>, items: Seq<ExprV>) -> Result<MipSeenV, Seq<char>>
    decreases items.len(),
{
    if items.len() == 0 {
        Ok(
            MipSeenV {
                scratch_cap_bytes: None,
                clear_before_each: None,
                fn_id: None,
                in_item_brand: None,
                out_item_brand: None,
            },
        )
    } else {
        match mip_fold(head, items.drop_last()) {
            Err(m) => Err(m),
            Ok(a) => mip_step(head, a, items.last()),
        }
    }
}

/// `map_in_place_buf`: a required scratch size and function, `clear_before_each`
/// defaulting to 1.
pub open spec fn xf_map_in_place(head: Seq<char>, items: Seq<ExprV>) -> Result<XfParsedV, Seq<char>> {
    match mip_fold(head, items.skip(1)) {
        Err(m) => Err(m),
        Ok(a) => if a.scratch_cap_bytes is None {
            Err(head + " missing scratch_cap_bytes"@)
        } else if a.fn_id is None {
            Err(head + " missing fn"@)
        } else {
            Ok(
                XfParsedV {
                    kind: PipeXfV::MapInPlaceBufV1 {
                        scratch_cap_bytes: a.scratch_cap_bytes->0,
                        clear_before_each: match a.clear_before_each {
                            Some(x) => x,
                            None => 1,
                        },
                        fn_id: a.fn_id->0,
                    },
                    in_item_brand: a.in_item_brand,
                    out_item_brand: a.out_item_brand,
                    added: Seq::empty(),
                },
            )
        },
    }
}

/// The plugin id: `bytes.lit` text, also inside an `std.stream.expr_v1`.
pub open spec fn plugin_id_spec(head: Seq<char>, id: ExprV) -> Result<Seq<char>, Seq<char>> {
    match id {
        ExprV::List(inner, _) => {
            let lit = if head_ident(inner) == Some("std.stream.expr_v1"@) && inner.len() == 2 {
                inner[1]
            } else {
                id
            };
            match bytes_lit_text(lit) {
                None => Err("id must be bytes.lit"@),
                Some(t) => match module_id_error(t) {
                    Some(m) => Err(m),
                    None => Ok(t),
                },
            }
        },
        _ => Err(head + " id must be bytes.lit"@),
    }
}

/// A 0/1 plugin option (1 when absent).
pub open spec fn plugin_opt(head: Seq<char>, ofs: Seq<(Seq<char>, ExprV)>, key: Seq<char>) -> Result<i32, Seq<char>> {
    match field_get(ofs, key) {
        None => Ok(1),
        Some(v) => match int_field(v, key) {
            Err(m) => Err(m),
            Ok(x) => if x != 0 && x != 1 {
                Err(head + " "@ + key + " must be 0 or 1"@)
            } else {
                Ok(x)
            },
        },
    }
}

/// The `(opts_v1 ...)` of a plugin stage: `(strict_brands, strict_cfg_canon)`.
pub open spec fn plugin_opts(head: Seq<char>, opts: Option<ExprV>) -> Result<(i32, i32), Seq<char>> {
    match opts {
        None => Ok((1, 1)),
        Some(ExprV::List(oi, _)) => if head_ident(oi) != Some("opts_v1"@) {
            Err(head + " opts_v1 must start with opts_v1"@)
        } else {
            match kv_fields_spec("opts_v1"@, oi.skip(1)) {
                Err(m) => Err(m),
                Ok(ofs) => match least_unknown(ofs, seq!["strict_brands"@, "strict_cfg_canon"@]) {
                    Some(k) => Err(head + " opts_v1 unknown field: "@ + k),
                    None => match plugin_opt(head, ofs, "strict_brands"@) {
                        Err(m) => Err(m),
                        Ok(sb) => match plugin_opt(head, ofs, "strict_cfg_canon"@) {
                            Err(m) => Err(m),
                            Ok(sc) => Ok((sb, sc)),
                        },
                    },
                },
            }
        },
        Some(_) => Err(head + " opts_v1 must be a list"@),
    }
}

/// `plugin`: an id, a `bytes` cfg expression and options; no brand fields.
pub open spec fn xf_plugin(head: Seq<char>, items: Seq<ExprV>, n: nat) -> Result<XfParsedV, Seq<char>> {
    match kv_fields_spec(head, items.skip(1)) {
        Err(m) => Err(m),
        Ok(fs) => match least_unknown(fs, seq!["id"@, "cfg"@, "opts_v1"@]) {
            Some(k) => Err(head + " unknown field: "@ + k),
            None => match field_get(fs, "id"@) {
                None => Err(head + " missing id"@),
                Some(idv) => match plugin_id_spec(head, idv) {
                    Err(m) => Err(m),
                    Ok(pid) => match field_get(fs, "cfg"@) {
                        None => Err(head + " missing cfg"@),
                        Some(cv) => match expr_wrapper_inner(cv) {
                            Err(m) => Err(m),
                            Ok(c) => match plugin_opts(head, field_get(fs, "opts_v1"@)) {
                                Err(m) => Err(m),
                                Ok((sb, sc)) => Ok(
                                    XfParsedV {
                                        kind: PipeXfV::PluginV1 {
                                            plugin_id: pid,
                                            cfg_param: n as usize,
                                            strict_brands: sb,
                                            strict_cfg_canon: sc,
                                        },
                                        in_item_brand: None,
                                        out_item_brand: None,
                                        added: seq![(Ty::Bytes, c)],
                                    },
                                ),
                            },
                        },
                    },
                },
            },
        },
    }
}

/// A required positive limit.
pub open spec fn req_pos(head: Seq<char>, fs: Seq<(Seq<char>, ExprV)>, key: Seq<char>) -> Result<i32, Seq<char>> {
    match req_int(head, fs, key) {
        Err(m) => Err(m),
        Ok(x) => if x <= 0 {
            Err(head + " "@ + key + " must be >= 1"@)
        } else {
            Ok(x)
        },
    }
}

/// An optional non-negative limit (0 when absent).
pub open spec fn opt_nonneg(head: Seq<char>, fs: Seq<(Seq<char>, ExprV)>, key: Seq<char>) -> Result<i32, Seq<char>> {
    match opt_int(fs, key, 0) {
        Err(m) => Err(m),
        Ok(x) => if x < 0 {
            Err(head + " "@ + key + " must be >= 0"@)
        } else {
            Ok(x)
        },
    }
}

/// The scope configuration used when a parallel map names none.
pub open spec fn default_scope_cfg() -> ExprV {
    ExprV::List(seq![ExprV::Ident("task.scope.cfg_v1"@, Seq::empty())], Seq::empty())
}

/// `par_map_stream` and its variants.
pub open spec fn xf_par_map(head: Seq<char>, items: Seq<ExprV>, n: nat) -> Result<XfParsedV, Seq<char>> {
    match kv_fields_spec(head, items.skip(1)) {
        Err(m) => Err(m),
        Ok(fs) => match least_unknown(
            fs,
            seq![
                "max_inflight"@,
                "max_item_bytes"@,
                "max_inflight_in_bytes"@,
                "max_out_item_bytes"@,
                "ctx"@,
                "mapper_defasync"@,
                "scope_cfg"@,
                "in_item_brand"@,
                "out_item_brand"@,
            ],
        ) {
            Some(k) => Err(head + " unknown field: "@ + k),
            None => match (
                req_pos(head, fs, "max_inflight"@),
                req_pos(head, fs, "max_item_bytes"@),
                opt_nonneg(head, fs, "max_inflight_in_bytes"@),
                opt_nonneg(head, fs, "max_out_item_bytes"@),
            ) {
                (Err(m), _, _, _) => Err(m),
                (Ok(_), Err(m), _, _) => Err(m),
                (Ok(_), Ok(_), Err(m), _) => Err(m),
                (Ok(_), Ok(_), Ok(_), Err(m)) => Err(m),
                (Ok(mi), Ok(mib), Ok(miib), Ok(moib)) => {
                    let ctx = match field_get(fs, "ctx"@) {
                        None => Ok(None),
                        Some(v) => match expr_wrapper_inner(v) {
                            Err(m) => Err(m),
                            Ok(c) => Ok(Some(c)),
                        },
                    };
                    match ctx {
                        Err(m) => Err(m),
                        Ok(c) => {
                            let mapper = match field_get(fs, "mapper_defasync"@) {
                                None => Err(head + " missing mapper_defasync"@),
                                Some(ExprV::Ident(name, _)) => Ok(name),
                                Some(ExprV::List(l, p)) => fn_wrapper_name(ExprV::List(l, p)),
                                Some(_) => Err(head + " mapper_defasync must be an identifier or std.stream.fn_v1"@),
                            };
                            match mapper {
                                Err(m) => Err(m),
                                Ok(md) => {
                                    let scope = match field_get(fs, "scope_cfg"@) {
                                        None => Ok(default_scope_cfg()),
                                        Some(v) => match v {
                                            ExprV::List(ci, _) => if head_ident(ci) == Some("task.scope.cfg_v1"@) {
                                                Ok(v)
                                            } else {
                                                Err(head + " scope_cfg must be task.scope.cfg_v1"@)
                                            },
                                            _ => Err(head + " scope_cfg must be task.scope.cfg_v1"@),
                                        },
                                    };
                                    match scope {
                                        Err(m) => Err(m),
                                        Ok(sc) => match xf_brands(fs) {
                                            Err(m) => Err(m),
                                            Ok((i, o)) => Ok(
                                                XfParsedV {
                                                    kind: PipeXfV::ParMapStreamV1 {
                                                        cfg: ParMapStreamCfgV {
                                                            max_inflight: mi,
                                                            max_item_bytes: mib,
                                                            max_inflight_in_bytes: miib,
                                                            max_out_item_bytes: moib,
                                                            ctx_param: match c {
                                                                None => None,
                                                                Some(_) => Some(n as usize),
                                                            },
                                                            mapper_defasync: md,
                                                            scope_cfg: sc,
                                                            unordered: head
                                                                == "std.stream.xf.par_map_stream_unordered_v1"@
                                                                || head
                                                                == "std.stream.xf.par_map_stream_unordered_result_bytes_v1"@,
                                                            result_bytes: head
                                                                == "std.stream.xf.par_map_stream_result_bytes_v1"@
                                                                || head
                                                                == "std.stream.xf.par_map_stream_unordered_result_bytes_v1"@,
                                                        },
                                                    },
                                                    in_item_brand: i,
                                                    out_item_brand: o,
                                                    added: match c {
                                                        None => Seq::empty(),
                                                        Some(ce) => seq![(Ty::Bytes, ce)],
                                                    },
                                                },
                                            ),
                                        },
                                    }
                                },
                            }
                        },
                    }
                },
            },
        },
    }
}

/// Whether `head` names one of the parallel map transforms.
pub open spec fn is_par_map_head(head: Seq<char>) -> bool {
    ||| head == "std.stream.xf.par_map_stream_v1"@
    ||| head == "std.stream.xf.par_map_stream_result_bytes_v1"@
    ||| head == "std.stream.xf.par_map_stream_unordered_v1"@
    ||| head == "std.stream.xf.par_map_stream_unordered_result_bytes_v1"@
}

/// The transform's parts by head, given its items and `n` earlier parameters.
pub open spec fn xf_by_head(head: Seq<char>, items: Seq<ExprV>, n: nat) -> Result<XfParsedV, Seq<char>> {
    if head == "std.stream.xf.map_bytes_v1"@ || head == "std.stream.xf.filter_v1"@ {
        xf_fn_arg(head, items)
    } else if head == "std.stream.xf.require_brand_v1"@ {
        xf_require_brand(head, items)
    } else if head == "std.stream.xf.take_v1"@ {
        xf_exprs(head, items, n, false)
    } else if head == "std.stream.xf.split_lines_v1"@ {
        xf_exprs(head, items, n, true)
    } else if head == "std.stream.xf.frame_u32le_v1"@ {
        match xf_tail(head, items.skip(1)) {
            Err(m) => Err(m),
            Ok((i, o)) => Ok(
                XfParsedV { kind: PipeXfV::FrameU32Le, in_item_brand: i, out_item_brand: o, added: Seq::empty() },
            ),
        }
    } else if head == "std.stream.xf.map_in_place_buf_v1"@ {
        xf_map_in_place(head, items)
    } else if head == "std.stream.xf.json_canon_stream_v1"@ {
        xf_json_canon(head, items)
    } else if head == "std.stream.xf.deframe_u32le_v1"@ {
        xf_deframe(head, items)
    } else if head == "std.stream.xf.plugin_v1"@ {
        xf_plugin(head, items, n)
    } else if is_par_map_head(head) {
        xf_par_map(head, items, n)
    } else {
        Err("unsupported pipe xf: "@ + head)
    }
}

/// A pipe transform read from its expression, given `n` earlier parameters.
pub open spec fn xf_spec(e: ExprV, n: nat) -> Result<(PipeXfDescV, Seq<(Ty, ExprV)>), Seq<char>> {
    match e {
        ExprV::List(items, ptr) => match head_ident(items) {
            None => Err("pipe xf must start with an identifier"@),
            Some(head) => match xf_by_head(head, items, n) {
                Err(m) => Err(m),
                Ok(x) => Ok(
                    (
                        PipeXfDescV {
                            kind: x.kind,
                            in_item_brand: x.in_item_brand,
                            out_item_brand: x.out_item_brand,
                            ptr,
                        },
                        x.added,
                    ),
                ),
            },
        },
        _ => Err("pipe xf must be a list"@),
    }
}


/// The ensures of the transform parsers by head: the kind, brands and the
/// parameters appended, or the error.
pub open spec fn xf_part_result(
    s: Result<XfParsedV, Seq<char>>,
    r: Result<(PipeXfV1, Option<PipeItemBrandInV1>, Option<PipeItemBrandOutV1>), CompilerError>,
    before: Seq<PipeParam>,
    after: Seq<PipeParam>,
) -> bool {
    match s {
        Ok(x) => r matches Ok((k, i, o)) && k@ == x.kind && opt_in_view(i) == x.in_item_brand && opt_out_view(o)
            == x.out_item_brand && params_view(after) == params_view(before) + x.added,
        Err(m) => r matches Err(e) && is_typing_err(e, m),
    }
}

fn get_opt_int(fs: &Vec<(String, Expr)>, key: &str, dflt: i32) -> (r: Result<i32, CompilerError>)
    ensures
        match opt_int(fields_view(fs@), key@, dflt) {
            Ok(x) => r matches Ok(y) && y == x,
            Err(m) => r matches Err(e) && is_typing_err(e, m),
        },
{
    match field_value(fs, key) {
        None => Ok(dflt),
        Some(v) => expect_int_field(v, key),
    }
}

fn get_req_int(head: &str, fs: &Vec<(String, Expr)>, key: &str) -> (r: Result<i32, CompilerError>)
    ensures
        match req_int(head@, fields_view(fs@), key@) {
            Ok(x) => r matches Ok(y) && y == x,
            Err(m) => r matches Err(e) && is_typing_err(e, m),
        },
{
    match field_value(fs, key) {
        None => {
            let m = concat_str(head, " missing ");
            Err(typing_with(m.as_str(), key))
        },
        Some(v) => expect_int_field(v, key),
    }
}

fn key_msg(head: &str, key: &str, tail: &str) -> (e: CompilerError)
    ensures
        is_typing_err(e, head@ + " "@ + key@ + tail@),
{
    let m1 = concat_str(head, " ");
    let m2 = concat_str(m1.as_str(), key);
    typing_with(m2.as_str(), tail)
}

fn get_opt_pos(head: &str, fs: &Vec<(String, Expr)>, key: &str) -> (r: Result<i32, CompilerError>)
    ensures
        match opt_pos(head@, fields_view(fs@), key@) {
            Ok(x) => r matches Ok(y) && y == x,
            Err(m) => r matches Err(e) && is_typing_err(e, m),
        },
{
    match field_value(fs, key) {
        None => Ok(0),
        Some(v) => {
            let x = expect_int_field(v, key)?;
            if x <= 0 {
                return Err(key_msg(head, key, " must be >= 1"));
            }
            Ok(x)
        },
    }
}

fn get_req_pos(head: &str, fs: &Vec<(String, Expr)>, key: &str) -> (r: Result<i32, CompilerError>)
    ensures
        match req_pos(head@, fields_view(fs@), key@) {
            Ok(x) => r matches Ok(y) && y == x,
            Err(m) => r matches Err(e) && is_typing_err(e, m),
        },
{
    let x = get_req_int(head, fs, key)?;
    if x <= 0 {
        return Err(key_msg(head, key, " must be >= 1"));
    }
    Ok(x)
}

fn get_opt_nonneg(head: &str, fs: &Vec<(String, Expr)>, key: &str) -> (r: Result<i32, CompilerError>)
    ensures
        match opt_nonneg(head@, fields_view(fs@), key@) {
            Ok(x) => r matches Ok(y) && y == x,
            Err(m) => r matches Err(e) && is_typing_err(e, m),
        },
{
    let x = get_opt_int(fs, key, 0)?;
    if x < 0 {
        return Err(key_msg(head, key, " must be >= 0"));
    }
    Ok(x)
}

fn get_xf_brands(fs: &Vec<(String, Expr)>) -> (r: Result<(Option<PipeItemBrandInV1>, Option<PipeItemBrandOutV1>), CompilerError>)
    ensures
        match xf_brands(fields_view(fs@)) {
            Ok((i, o)) => r matches Ok((x, y)) && opt_in_view(x) == i && opt_out_view(y) == o,
            Err(m) => r matches Err(e) && is_typing_err(e, m),
        },
{
    let i = parse_opt_brand_in(fs)?;
    let o = parse_opt_brand_out(fs)?;
    Ok((i, o))
}

fn get_xf_tail(head: &str, items: &Vec<Expr>, start: usize) -> (r: Result<
    (Option<PipeItemBrandInV1>, Option<PipeItemBrandOutV1>),
    CompilerError,
>)
    requires
        start <= items@.len(),
    ensures
        match xf_tail(head@, view_exprs(items@).skip(start as int)) {
            Ok((i, o)) => r matches Ok((x, y)) && opt_in_view(x) == i && opt_out_view(y) == o,
            Err(m) => r matches Err(e) && is_typing_err(e, m),
        },
{
    let fields = parse_kv_fields(head, items, start)?;
    parse_xf_item_brand_fields(head, &fields)
}


fn parse_xf_fn_arg(head: &str, items: &Vec<Expr>) -> (r: Result<
    (PipeXfV1, Option<PipeItemBrandInV1>, Option<PipeItemBrandOutV1>),
    CompilerError,
>)
    ensures
        match xf_fn_arg(head@, view_exprs(items@)) {
            Ok(x) => x.added == Seq::<(Ty, ExprV)>::empty() && (r matches Ok((k, i, o)) && k@ == x.kind && opt_in_view(i)
                == x.in_item_brand && opt_out_view(o) == x.out_item_brand),
            Err(m) => r matches Err(e) && is_typing_err(e, m),
        },
{
    proof {
        lemma_view_exprs(items@);
    }
    if items.len() < 2 {
        return Err(typing_with(head, " expects at least 1 argument"));
    }
    let fn_id = parse_fn_v1(&items[1])?;
    let (i, o) = get_xf_tail(head, items, 2)?;
    let kind = if str_eq(head, "std.stream.xf.map_bytes_v1") {
        PipeXfV1::MapBytes { fn_id }
    } else {
        PipeXfV1::Filter { fn_id }
    };
    Ok((kind, i, o))
}

fn parse_xf_exprs(head: &str, items: &Vec<Expr>, params: &mut Vec<PipeParam>, two: bool) -> (r: Result<
    (PipeXfV1, Option<PipeItemBrandInV1>, Option<PipeItemBrandOutV1>),
    CompilerError,
>)
    ensures
        xf_part_result(xf_exprs(head@, view_exprs(items@), old(params)@.len(), two), r, old(params)@, final(params)@),
{
    proof {
        lemma_view_exprs(items@);
    }
    let k: usize = if two { 2 } else { 1 };
    if items.len() < k + 1 {
        if two {
            return Err(typing_with(head, " expects at least 2 arguments"));
        } else {
            return Err(typing_with(head, " expects at least 1 argument"));
        }
    }
    let first = parse_expr_v1(params, Ty::I32, &items[1])?;
    let mut second = first;
    if two {
        second = parse_expr_v1(params, Ty::I32, &items[2])?;
    }
    let (i, o) = get_xf_tail(head, items, k + 1)?;
    let kind = if two {
        PipeXfV1::SplitLines { delim_param: first, max_line_bytes_param: second }
    } else {
        PipeXfV1::Take { n_param: first }
    };
    proof {
        let a1 = wrapped(items@[1]@);
        let a2 = wrapped(items@[2]@);
        if two {
            assert(params_view(final(params)@) =~= params_view(old(params)@) + seq![(Ty::I32, a1), (Ty::I32, a2)]);
        } else {
            assert(params_view(final(params)@) =~= params_view(old(params)@) + seq![(Ty::I32, a1)]);
        }
    }
    Ok((kind, i, o))
}

fn parse_xf_require_brand(head: &str, items: &Vec<Expr>) -> (r: Result<
    (PipeXfV1, Option<PipeItemBrandInV1>, Option<PipeItemBrandOutV1>),
    CompilerError,
>)
    requires
        items@.len() >= 1,
    ensures
        match xf_require_brand(head@, view_exprs(items@)) {
            Ok(x) => x.added == Seq::<(Ty, ExprV)>::empty() && (r matches Ok((k, i, o)) && k@ == x.kind && opt_in_view(i)
                == x.in_item_brand && opt_out_view(o) == x.out_item_brand),
            Err(m) => r matches Err(e) && is_typing_err(e, m),
        },
{
    let fields = parse_kv_fields(head, items, 1)?;
    let mut allowed: Vec<&str> = Vec::new();
    allowed.push("brand");
    allowed.push("validator");
    allowed.push("max_item_bytes");
    assert(strs_view(allowed@) =~= seq!["brand"@, "validator"@, "max_item_bytes"@]);
    check_known_fields(head, &fields, &allowed)?;
    let bv = match field_value(&fields, "brand") {
        Some(v) => v,
        None => {
            return Err(typing_with(head, " missing brand"));
        },
    };
    let brand_id = parse_brand_id(bv, "brand")?;
    let validator_id = match field_value(&fields, "validator") {
        None => None,
        Some(v) => match v.as_ident() {
            None => {
                return Err(typing_with(head, " validator must be an identifier"));
            },
            Some(id) => {
                match validate_symbol(id) {
                    Ok(()) => {},
                    Err(m) => {
                        return Err(typing(m));
                    },
                }
                Some(id.to_string())
            },
        },
    };
    let max_item_bytes = get_opt_int(&fields, "max_item_bytes", 0)?;
    if max_item_bytes < 0 {
        return Err(typing_with(head, " max_item_bytes must be >= 0"));
    }
    Ok((PipeXfV1::RequireBrandV1 { brand_id, validator_id, max_item_bytes }, None, None))
}

#[verifier::rlimit(40)]
fn parse_xf_json_canon(head: &str, items: &Vec<Expr>) -> (r: Result<
    (PipeXfV1, Option<PipeItemBrandInV1>, Option<PipeItemBrandOutV1>),
    CompilerError,
>)
    requires
        items@.len() >= 1,
    ensures
        match xf_json_canon(head@, view_exprs(items@)) {
            Ok(x) => x.added == Seq::<(Ty, ExprV)>::empty() && (r matches Ok((k, i, o)) && k@ == x.kind && opt_in_view(i)
                == x.in_item_brand && opt_out_view(o) == x.out_item_brand),
            Err(m) => r matches Err(e) && is_typing_err(e, m),
        },
{
    let fields = parse_kv_fields(head, items, 1)?;
    let mut allowed: Vec<&str> = Vec::new();
    allowed.push("max_depth");
    allowed.push("max_total_json_bytes");
    allowed.push("max_object_members");
    allowed.push("max_object_total_bytes");
    allowed.push("emit_chunk_max_bytes");
    allowed.push("in_item_brand");
    allowed.push("out_item_brand");
    assert(strs_view(allowed@) =~= seq![
        "max_depth"@,
        "max_total_json_bytes"@,
        "max_object_members"@,
        "max_object_total_bytes"@,
        "emit_chunk_max_bytes"@,
        "in_item_brand"@,
        "out_item_brand"@,
    ]);
    check_known_fields(head, &fields, &allowed)?;
    let max_depth = get_opt_pos(head, &fields, "max_depth")?;
    let max_total_json_bytes = get_opt_pos(head, &fields, "max_total_json_bytes")?;
    let max_object_members = get_opt_pos(head, &fields, "max_object_members")?;
    let max_object_total_bytes = get_opt_pos(head, &fields, "max_object_total_bytes")?;
    let emit_chunk_max_bytes = get_opt_pos(head, &fields, "emit_chunk_max_bytes")?;
    let (i, o) = get_xf_brands(&fields)?;
    Ok(
        (
            PipeXfV1::JsonCanonStreamV1 {
                cfg: JsonCanonStreamCfgV1 {
                    max_depth,
                    max_total_json_bytes,
                    max_object_members,
                    max_object_total_bytes,
                    emit_chunk_max_bytes,
                },
            },
            i,
            o,
        ),
    )
}

#[verifier::rlimit(40)]
fn parse_xf_deframe(head: &str, items: &Vec<Expr>) -> (r: Result<
    (PipeXfV1, Option<PipeItemBrandInV1>, Option<PipeItemBrandOutV1>),
    CompilerError,
>)
    requires
        items@.len() >= 1,
    ensures
        match xf_deframe(head@, view_exprs(items@)) {
            Ok(x) => x.added == Seq::<(Ty, ExprV)>::empty() && (r matches Ok((k, i, o)) && k@ == x.kind && opt_in_view(i)
                == x.in_item_brand && opt_out_view(o) == x.out_item_brand),
            Err(m) => r matches Err(e) && is_typing_err(e, m),
        },
{
    let fields = parse_kv_fields(head, items, 1)?;
    let mut allowed: Vec<&str> = Vec::new();
    allowed.push("max_frame_bytes");
    allowed.push("max_frames");
    allowed.push("allow_empty");
    allowed.push("on_truncated");
    allowed.push("in_item_brand");
    allowed.push("out_item_brand");
    assert(strs_view(allowed@) =~= seq![
        "max_frame_bytes"@,
        "max_frames"@,
        "allow_empty"@,
        "on_truncated"@,
        "in_item_brand"@,
        "out_item_brand"@,
    ]);
    check_known_fields(head, &fields, &allowed)?;
    let max_frame_bytes = get_req_int(head, &fields, "max_frame_bytes")?;
    let max_frames = get_opt_int(&fields, "max_frames", 0)?;
    let allow_empty = get_opt_int(&fields, "allow_empty", 1)?;
    let on_truncated = match field_value(&fields, "on_truncated") {
        None => DeframeOnTruncatedV1::Error,
        Some(v) => {
            let w = v.as_ident();
            if w.is_some() && str_eq(w.unwrap(), "err") {
                DeframeOnTruncatedV1::Error
            } else if w.is_some() && str_eq(w.unwrap(), "drop") {
                DeframeOnTruncatedV1::Drop
            } else {
                return Err(typing_with(head, " on_truncated must be \"err\" or \"drop\""));
            }
        },
    };
    let (i, o) = get_xf_brands(&fields)?;
    Ok(
        (
            PipeXfV1::DeframeU32LeV1 {
                cfg: DeframeU32LeCfgV1 { max_frame_bytes, max_frames, allow_empty, on_truncated },
            },
            i,
            o,
        ),
    )
}


struct MipSeen {
    scratch_cap_bytes: Option<i32>,
    clear_before_each: Option<i32>,
    fn_id: Option<String>,
    in_item_brand: Option<PipeItemBrandInV1>,
    out_item_brand: Option<PipeItemBrandOutV1>,
}

impl View for MipSeen {
    type V = MipSeenV;

    closed spec fn view(&self) -> MipSeenV {
        MipSeenV {
            scratch_cap_bytes: self.scratch_cap_bytes,
            clear_before_each: self.clear_before_each,
            fn_id: opt_str_view(self.fn_id),
            in_item_brand: opt_in_view(self.in_item_brand),
            out_item_brand: opt_out_view(self.out_item_brand),
        }
    }
}

#[verifier::rlimit(40)]
fn mip_apply(head: &str, a: &mut MipSeen, item: &Expr) -> (r: Result<(), CompilerError>)
    ensures
        match mip_step(head@, old(a)@, item@) {
            Ok(n) => r is Ok && final(a)@ == n,
            Err(m) => r matches Err(e) && is_typing_err(e, m),
        },
{
    let inner = match item {
        Expr::List { items, .. } => items,
        _ => {
            return Err(typing_with(head, " items must be lists"));
        },
    };
    proof {
        lemma_view_exprs(inner@);
    }
    let is_fn = if inner.len() > 0 {
        match inner[0].as_ident() {
            Some(h) => str_eq(h, "std.stream.fn_v1"),
            None => false,
        }
    } else {
        false
    };
    if is_fn {
        let f = parse_fn_v1(item)?;
        if a.fn_id.is_some() {
            return Err(typing_with(head, " has duplicate fn"));
        }
        a.fn_id = Some(f);
        return Ok(());
    }
    if inner.len() != 2 {
        return Err(typing_with(head, " fields must be pairs"));
    }
    let key = match inner[0].as_ident() {
        Some(k) => k,
        None => {
            return Err(typing_with(head, " field key must be an identifier"));
        },
    };
    let v = &inner[1];
    if str_eq(key, "scratch_cap_bytes") {
        let x = expect_int_field(v, key)?;
        if x <= 0 {
            return Err(typing_with(head, " scratch_cap_bytes must be >= 1"));
        }
        if a.scratch_cap_bytes.is_some() {
            return Err(typing_with(head, " has duplicate scratch_cap_bytes"));
        }
        a.scratch_cap_bytes = Some(x);
    } else if str_eq(key, "clear_before_each") {
        let x = expect_int_field(v, key)?;
        if a.clear_before_each.is_some() {
            return Err(typing_with(head, " has duplicate clear_before_each"));
        }
        a.clear_before_each = Some(x);
    } else if str_eq(key, "fn") {
        let f = parse_fn_v1(v)?;
        if a.fn_id.is_some() {
            return Err(typing_with(head, " has duplicate fn"));
        }
        a.fn_id = Some(f);
    } else if str_eq(key, "in_item_brand") {
        if a.in_item_brand.is_some() {
            return Err(typing_with(head, " has duplicate in_item_brand"));
        }
        a.in_item_brand = Some(parse_item_brand_in(v, "in_item_brand")?);
    } else if str_eq(key, "out_item_brand") {
        if a.out_item_brand.is_some() {
            return Err(typing_with(head, " has duplicate out_item_brand"));
        }
        a.out_item_brand = Some(parse_item_brand_out(v, "out_item_brand")?);
    } else {
        let m = concat_str(head, " unknown field: ");
        return Err(typing_with(m.as_str(), key));
    }
    Ok(())
}

proof fn lemma_mip_err_prefix(head: Seq<char>, t: Seq<ExprV>, k: int)
    requires
        0 <= k <= t.len(),
        mip_fold(head, t.take(k)) is Err,
    ensures
        mip_fold(head, t) == mip_fold(head, t.take(k)),
    decreases t.len() - k,
{
    if k < t.len() {
        assert(t.take(k + 1).drop_last() =~= t.take(k));
        lemma_mip_err_prefix(head, t, k + 1);
    } else {
        assert(t.take(k) =~= t);
    }
}

fn parse_xf_map_in_place(head: &str, items: &Vec<Expr>) -> (r: Result<
    (PipeXfV1, Option<PipeItemBrandInV1>, Option<PipeItemBrandOutV1>),
    CompilerError,
>)
    requires
        items@.len() >= 1,
    ensures
        match xf_map_in_place(head@, view_exprs(items@)) {
            Ok(x) => x.added == Seq::<(Ty, ExprV)>::empty() && (r matches Ok((k, i, o)) && k@ == x.kind && opt_in_view(i)
                == x.in_item_brand && opt_out_view(o) == x.out_item_brand),
            Err(m) => r matches Err(e) && is_typing_err(e, m),
        },
{
    proof {
        lemma_view_exprs(items@);
    }
    let ghost rest = view_exprs(items@).skip(1);
    let mut a = MipSeen {
        scratch_cap_bytes: None,
        clear_before_each: None,
        fn_id: None,
        in_item_brand: None,
        out_item_brand: None,
    };
    let mut i: usize = 1;
    assert(rest.take(0) =~= Seq::<ExprV>::empty());
    while i < items.len()
        invariant
            1 <= i <= items@.len(),
            rest == view_exprs(items@).skip(1),
            view_exprs(items@).len() == items@.len(),
            forall|j: int| 0 <= j < items@.len() ==> #[trigger] view_exprs(items@)[j] == items@[j]@,
            mip_fold(head@, rest.take(i - 1)) == Ok::<MipSeenV, Seq<char>>(a@),
        decreases items.len() - i,
    {
        let ghost nxt = rest.take(i as int);
        assert(nxt.drop_last() =~= rest.take(i - 1));
        assert(nxt.last() == items@[i as int]@);
        match mip_apply(head, &mut a, &items[i]) {
            Ok(()) => {},
            Err(e) => {
                proof {
                    assert(mip_fold(head@, nxt) is Err);
                    lemma_mip_err_prefix(head@, rest, i as int);
                }
                return Err(e);
            },
        }
        i = i + 1;
    }
    assert(rest.take(i - 1) =~= rest);
    let scratch_cap_bytes = match a.scratch_cap_bytes {
        Some(x) => x,
        None => {
            return Err(typing_with(head, " missing scratch_cap_bytes"));
        },
    };
    let fn_id = match a.fn_id {
        Some(f) => f,
        None => {
            return Err(typing_with(head, " missing fn"));
        },
    };
    let clear_before_each = match a.clear_before_each {
        Some(x) => x,
        None => 1,
    };
    Ok(
        (
            PipeXfV1::MapInPlaceBufV1 { scratch_cap_bytes, clear_before_each, fn_id },
            a.in_item_brand,
            a.out_item_brand,
        ),
    )
}

fn parse_plugin_id(head: &str, id: &Expr) -> (r: Result<String, CompilerError>)
    ensures
        match plugin_id_spec(head@, id@) {
            Ok(t) => r matches Ok(s) && s@ == t,
            Err(m) => r matches Err(e) && is_typing_err(e, m),
        },
{
    let inner = match id {
        Expr::List { items, .. } => items,
        _ => {
            return Err(typing_with(head, " id must be bytes.lit"));
        },
    };
    proof {
        lemma_view_exprs(inner@);
    }
    let wrapped_lit = if inner.len() == 2 {
        match inner[0].as_ident() {
            Some(h) => str_eq(h, "std.stream.expr_v1"),
            None => false,
        }
    } else {
        false
    };
    let text = if wrapped_lit {
        expect_bytes_lit_text(&inner[1], "id must be bytes.lit")?
    } else {
        expect_bytes_lit_text(id, "id must be bytes.lit")?
    };
    match validate_symbol(text.as_str()) {
        Ok(()) => Ok(text),
        Err(m) => Err(typing(m)),
    }
}

fn get_plugin_opt(head: &str, ofs: &Vec<(String, Expr)>, key: &str) -> (r: Result<i32, CompilerError>)
    ensures
        match plugin_opt(head@, fields_view(ofs@), key@) {
            Ok(x) => r matches Ok(y) && y == x,
            Err(m) => r matches Err(e) && is_typing_err(e, m),
        },
{
    match field_value(ofs, key) {
        None => Ok(1),
        Some(v) => {
            let x = expect_int_field(v, key)?;
            if x != 0 && x != 1 {
                return Err(key_msg(head, key, " must be 0 or 1"));
            }
            Ok(x)
        },
    }
}

fn parse_plugin_opts(head: &str, opts: Option<&Expr>) -> (r: Result<(i32, i32), CompilerError>)
    ensures
        match plugin_opts(
            head@,
            match opts {
                None => None,
                Some(e) => Some(e@),
            },
        ) {
            Ok(p) => r matches Ok(q) && q == p,
            Err(m) => r matches Err(e) && is_typing_err(e, m),
        },
{
    let o = match opts {
        None => {
            return Ok((1, 1));
        },
        Some(o) => o,
    };
    let oi = match o {
        Expr::List { items, .. } => items,
        _ => {
            return Err(typing_with(head, " opts_v1 must be a list"));
        },
    };
    proof {
        lemma_view_exprs(oi@);
    }
    let head_ok = if oi.len() > 0 {
        match oi[0].as_ident() {
            Some(h) => str_eq(h, "opts_v1"),
            None => false,
        }
    } else {
        false
    };
    if !head_ok {
        return Err(typing_with(head, " opts_v1 must start with opts_v1"));
    }
    let ofs = parse_kv_fields("opts_v1", oi, 1)?;
    let mut allowed: Vec<&str> = Vec::new();
    allowed.push("strict_brands");
    allowed.push("strict_cfg_canon");
    assert(strs_view(allowed@) =~= seq!["strict_brands"@, "strict_cfg_canon"@]);
    let m = concat_str(head, " opts_v1");
    proof {
        reveal_strlit(" opts_v1");
        reveal_strlit(" unknown field: ");
        reveal_strlit(" opts_v1 unknown field: ");
        assert forall|k: Seq<char>| #![auto] m@ + " unknown field: "@ + k =~= head@ + " opts_v1 unknown field: "@ + k by {}
    }
    check_known_fields(m.as_str(), &ofs, &allowed)?;
    let sb = get_plugin_opt(head, &ofs, "strict_brands")?;
    let sc = get_plugin_opt(head, &ofs, "strict_cfg_canon")?;
    Ok((sb, sc))
}

fn parse_xf_plugin(head: &str, items: &Vec<Expr>, params: &mut Vec<PipeParam>) -> (r: Result<
    (PipeXfV1, Option<PipeItemBrandInV1>, Option<PipeItemBrandOutV1>),
    CompilerError,
>)
    requires
        items@.len() >= 1,
    ensures
        xf_part_result(xf_plugin(head@, view_exprs(items@), old(params)@.len()), r, old(params)@, final(params)@),
{
    let fields = parse_kv_fields(head, items, 1)?;
    let mut allowed: Vec<&str> = Vec::new();
    allowed.push("id");
    allowed.push("cfg");
    allowed.push("opts_v1");
    assert(strs_view(allowed@) =~= seq!["id"@, "cfg"@, "opts_v1"@]);
    check_known_fields(head, &fields, &allowed)?;
    let id_expr = match field_value(&fields, "id") {
        Some(v) => v,
        None => {
            return Err(typing_with(head, " missing id"));
        },
    };
    let plugin_id = parse_plugin_id(head, id_expr)?;
    let cfg_expr = match field_value(&fields, "cfg") {
        Some(v) => v,
        None => {
            return Err(typing_with(head, " missing cfg"));
        },
    };
    let cfg_param = parse_expr_v1(params, Ty::Bytes, cfg_expr)?;
    let (strict_brands, strict_cfg_canon) = parse_plugin_opts(head, field_value(&fields, "opts_v1"))?;
    proof {
        assert(params_view(final(params)@) =~= params_view(old(params)@) + seq![(Ty::Bytes, wrapped(cfg_expr@))]);
    }
    Ok((PipeXfV1::PluginV1 { plugin_id, cfg_param, strict_brands, strict_cfg_canon }, None, None))
}

fn default_scope_cfg_expr() -> (e: Expr)
    ensures
        e@ == default_scope_cfg(),
{
    let items = vec![Expr::Ident { name: "task.scope.cfg_v1".to_string(), ptr: String::new() }];
    proof {
        lemma_view_exprs(items@);
        assert(view_exprs(items@) =~= seq![ExprV::Ident("task.scope.cfg_v1"@, Seq::empty())]);
    }
    Expr::List { items, ptr: String::new() }
}

#[verifier::rlimit(60)]
fn parse_xf_par_map(head: &str, items: &Vec<Expr>, params: &mut Vec<PipeParam>) -> (r: Result<
    (PipeXfV1, Option<PipeItemBrandInV1>, Option<PipeItemBrandOutV1>),
    CompilerError,
>)
    requires
        items@.len() >= 1,
    ensures
        xf_part_result(xf_par_map(head@, view_exprs(items@), old(params)@.len()), r, old(params)@, final(params)@),
{
    let fields = parse_kv_fields(head, items, 1)?;
    let mut allowed: Vec<&str> = Vec::new();
    allowed.push("max_inflight");
    allowed.push("max_item_bytes");
    allowed.push("max_inflight_in_bytes");
    allowed.push("max_out_item_bytes");
    allowed.push("ctx");
    allowed.push("mapper_defasync");
    allowed.push("scope_cfg");
    allowed.push("in_item_brand");
    allowed.push("out_item_brand");
    assert(strs_view(allowed@) =~= seq![
        "max_inflight"@,
        "max_item_bytes"@,
        "max_inflight_in_bytes"@,
        "max_out_item_bytes"@,
        "ctx"@,
        "mapper_defasync"@,
        "scope_cfg"@,
        "in_item_brand"@,
        "out_item_brand"@,
    ]);
    check_known_fields(head, &fields, &allowed)?;
    let max_inflight = get_req_pos(head, &fields, "max_inflight")?;
    let max_item_bytes = get_req_pos(head, &fields, "max_item_bytes")?;
    let max_inflight_in_bytes = get_opt_nonneg(head, &fields, "max_inflight_in_bytes")?;
    let max_out_item_bytes = get_opt_nonneg(head, &fields, "max_out_item_bytes")?;
    let ctx_param = match field_value(&fields, "ctx") {
        None => None,
        Some(v) => Some(parse_expr_v1(params, Ty::Bytes, v)?),
    };
    let ghost mid = params@;
    let mapper_defasync = match field_value(&fields, "mapper_defasync") {
        None => {
            return Err(typing_with(head, " missing mapper_defasync"));
        },
        Some(v) => match v {
            Expr::Ident { name, .. } => name.clone(),
            Expr::List { .. } => parse_fn_v1(v)?,
            _ => {
                return Err(typing_with(head, " mapper_defasync must be an identifier or std.stream.fn_v1"));
            },
        },
    };
    let scope_cfg = match field_value(&fields, "scope_cfg") {
        None => default_scope_cfg_expr(),
        Some(v) => {
            let ok = match v {
                Expr::List { items: ci, .. } => {
                    proof {
                        lemma_view_exprs(ci@);
                    }
                    if ci.len() > 0 {
                        match ci[0].as_ident() {
                            Some(h) => str_eq(h, "task.scope.cfg_v1"),
                            None => false,
                        }
                    } else {
                        false
                    }
                },
                _ => false,
            };
            if !ok {
                return Err(typing_with(head, " scope_cfg must be task.scope.cfg_v1"));
            }
            v.copy_expr()
        },
    };
    let (i, o) = get_xf_brands(&fields)?;
    let unordered = str_eq(head, "std.stream.xf.par_map_stream_unordered_v1") || str_eq(
        head,
        "std.stream.xf.par_map_stream_unordered_result_bytes_v1",
    );
    let result_bytes = str_eq(head, "std.stream.xf.par_map_stream_result_bytes_v1") || str_eq(
        head,
        "std.stream.xf.par_map_stream_unordered_result_bytes_v1",
    );
    proof {
        match field_get(fields_view(fields@), "ctx"@) {
            None => {
                assert(params_view(final(params)@) =~= params_view(old(params)@) + Seq::<(Ty, ExprV)>::empty());
            },
            Some(c) => {
                assert(params_view(final(params)@) =~= params_view(old(params)@) + seq![(Ty::Bytes, wrapped(c))]);
            },
        }
    }
    Ok(
        (
            PipeXfV1::ParMapStreamV1 {
                cfg: ParMapStreamCfgV1 {
                    max_inflight,
                    max_item_bytes,
                    max_inflight_in_bytes,
                    max_out_item_bytes,
                    ctx_param,
                    mapper_defasync,
                    scope_cfg,
                    unordered,
                    result_bytes,
                },
            },
            i,
            o,
        ),
    )
}

/// The transform heads `parse_xf_v1` reads.
pub open spec fn xf_head_known(h: Seq<char>) -> bool {
    h == "std.stream.xf.map_bytes_v1"@
        || h == "std.stream.xf.filter_v1"@
        || h == "std.stream.xf.require_brand_v1"@
        || h == "std.stream.xf.take_v1"@
        || h == "std.stream.xf.split_lines_v1"@
        || h == "std.stream.xf.frame_u32le_v1"@
        || h == "std.stream.xf.map_in_place_buf_v1"@
        || h == "std.stream.xf.json_canon_stream_v1"@
        || h == "std.stream.xf.deframe_u32le_v1"@
        || h == "std.stream.xf.plugin_v1"@
        || h == "std.stream.xf.par_map_stream_v1"@
        || h == "std.stream.xf.par_map_stream_result_bytes_v1"@
        || h == "std.stream.xf.par_map_stream_unordered_v1"@
        || h == "std.stream.xf.par_map_stream_unordered_result_bytes_v1"@
}

/// Reads one pipe transform, appending the expressions it takes to `params`.
#[verifier::rlimit(60)]
pub fn parse_xf_v1(expr: &Expr, params: &mut Vec<PipeParam>) -> (r: Result<PipeXfDescV1, CompilerError>)
    ensures
        match xf_spec(expr@, old(params)@.len()) {
            Ok((d, added)) => r matches Ok(x) && x@ == d && params_view(final(params)@) == params_view(old(params)@)
                + added,
            Err(m) => r matches Err(e) && is_typing_err(e, m),
        },
        match expr@ {
            ExprV::List(items, _) => match head_ident(items) {
                Some(h) => !xf_head_known(h) ==> final(params)@ == old(params)@,
                None => final(params)@ == old(params)@,
            },
            _ => final(params)@ == old(params)@,
        },
{
    let items = match expr {
        Expr::List { items, .. } => items,
        _ => {
            return Err(typing("pipe xf must be a list".to_string()));
        },
    };
    proof {
        lemma_view_exprs(items@);
    }
    let ptr = expr.ptr().to_string();
    let head = if items.len() > 0 {
        match items[0].as_ident() {
            Some(h) => h,
            None => {
                return Err(typing("pipe xf must start with an identifier".to_string()));
            },
        }
    } else {
        return Err(typing("pipe xf must start with an identifier".to_string()));
    };
    let parts = if str_eq(head, "std.stream.xf.map_bytes_v1") || str_eq(head, "std.stream.xf.filter_v1") {
        let p = parse_xf_fn_arg(head, items)?;
        proof {
            assert(params_view(params@) =~= params_view(old(params)@) + Seq::<(Ty, ExprV)>::empty());
        }
        p
    } else if str_eq(head, "std.stream.xf.require_brand_v1") {
        let p = parse_xf_require_brand(head, items)?;
        proof {
            assert(params_view(params@) =~= params_view(old(params)@) + Seq::<(Ty, ExprV)>::empty());
        }
        p
    } else if str_eq(head, "std.stream.xf.take_v1") {
        parse_xf_exprs(head, items, params, false)?
    } else if str_eq(head, "std.stream.xf.split_lines_v1") {
        parse_xf_exprs(head, items, params, true)?
    } else if str_eq(head, "std.stream.xf.frame_u32le_v1") {
        let (i, o) = get_xf_tail(head, items, 1)?;
        proof {
            assert(params_view(params@) =~= params_view(old(params)@) + Seq::<(Ty, ExprV)>::empty());
        }
        (PipeXfV1::FrameU32Le, i, o)
    } else if str_eq(head, "std.stream.xf.map_in_place_buf_v1") {
        let p = parse_xf_map_in_place(head, items)?;
        proof {
            assert(params_view(params@) =~= params_view(old(params)@) + Seq::<(Ty, ExprV)>::empty());
        }
        p
    } else if str_eq(head, "std.stream.xf.json_canon_stream_v1") {
        let p = parse_xf_json_canon(head, items)?;
        proof {
            assert(params_view(params@) =~= params_view(old(params)@) + Seq::<(Ty, ExprV)>::empty());
        }
        p
    } else if str_eq(head, "std.stream.xf.deframe_u32le_v1") {
        let p = parse_xf_deframe(head, items)?;
        proof {
            assert(params_view(params@) =~= params_view(old(params)@) + Seq::<(Ty, ExprV)>::empty());
        }
        p
    } else if str_eq(head, "std.stream.xf.plugin_v1") {
        parse_xf_plugin(head, items, params)?
    } else if str_eq(head, "std.stream.xf.par_map_stream_v1") || str_eq(
        head,
        "std.stream.xf.par_map_stream_result_bytes_v1",
    ) || str_eq(head, "std.stream.xf.par_map_stream_unordered_v1") || str_eq(
        head,
        "std.stream.xf.par_map_stream_unordered_result_bytes_v1",
    ) {
        parse_xf_par_map(head, items, params)?
    } else {
        return Err(typing_with("unsupported pipe xf: ", head));
    };
    let (kind, in_item_brand, out_item_brand) = parts;
    Ok(PipeXfDescV1 { kind, in_item_brand, out_item_brand, ptr })
}

/// The transforms of `(std.stream.chain_v1 xf...)`, in order, with the
/// parameters they add.
pub open spec fn chain_fold(xfs: Seq<ExprV>, n: nat) -> Result<(Seq<PipeXfDescV>, Seq<(Ty, ExprV)>), Seq<char>>
    decreases xfs.len(),
{
    if xfs.len() == 0 {
        Ok((Seq::empty(), Seq::empty()))
    } else {
        match chain_fold(xfs.drop_last(), n) {
            Err(m) => Err(m),
            Ok((ds, added)) => match xf_spec(xfs.last(), n + added.len()) {
                Err(m) => Err(m),
                Ok((d, more)) => Ok((ds.push(d), added + more)),
            },
        }
    }
}

pub open spec fn chain_spec(e: ExprV, n: nat) -> Result<(Seq<PipeXfDescV>, Seq<(Ty, ExprV)>), Seq<char>> {
    match e {
        ExprV::List(items, _) => if head_ident(items) != Some("std.stream.chain_v1"@) {
            Err("pipe chain must be std.stream.chain_v1"@)
        } else {
            chain_fold(items.drop_first(), n)
        },
        _ => Err("pipe chain must be a list"@),
    }
}

pub open spec fn xf_descs_view(v: Seq<PipeXfDescV1>) -> Seq<PipeXfDescV> {
    Seq::new(v.len(), |i: int| v[i]@)
}

proof fn lemma_chain_err_prefix(t: Seq<ExprV>, n: nat, k: int)
    requires
        0 <= k <= t.len(),
        chain_fold(t.take(k), n) is Err,
    ensures
        chain_fold(t, n) == chain_fold(t.take(k), n),
    decreases t.len() - k,
{
    if k < t.len() {
        assert(t.take(k + 1).drop_last() =~= t.take(k));
        lemma_chain_err_prefix(t, n, k + 1);
    } else {
        assert(t.take(k) =~= t);
    }
}

/// Reads `(std.stream.chain_v1 xf...)`.
pub fn parse_chain_v1(expr: &Expr, params: &mut Vec<PipeParam>) -> (r: Result<Vec<PipeXfDescV1>, CompilerError>)
    ensures
        match chain_spec(expr@, old(params)@.len()) {
            Ok((ds, added)) => r matches Ok(v) && xf_descs_view(v@) == ds && params_view(final(params)@)
                == params_view(old(params)@) + added,
            Err(m) => r matches Err(e) && is_typing_err(e, m),
        },
{
    let items = match expr {
        Expr::List { items, .. } => items,
        _ => {
            return Err(typing("pipe chain must be a list".to_string()));
        },
    };
    proof {
        lemma_view_exprs(items@);
    }
    let head_ok = if items.len() > 0 {
        match items[0].as_ident() {
            Some(h) => str_eq(h, "std.stream.chain_v1"),
            None => false,
        }
    } else {
        false
    };
    if !head_ok {
        return Err(typing("pipe chain must be std.stream.chain_v1".to_string()));
    }
    let ghost xs = view_exprs(items@).drop_first();
    let ghost n = old(params)@.len();
    let mut out: Vec<PipeXfDescV1> = Vec::new();
    let mut i: usize = 1;
    assert(xs.take(0) =~= Seq::<ExprV>::empty());
    assert(xf_descs_view(out@) =~= Seq::<PipeXfDescV>::empty());
    assert(params_view(params@) =~= params_view(old(params)@) + Seq::<(Ty, ExprV)>::empty());
    while i < items.len()
        invariant
            1 <= i <= items@.len(),
            xs == view_exprs(items@).drop_first(),
            n == old(params)@.len(),
            view_exprs(items@).len() == items@.len(),
            forall|j: int| 0 <= j < items@.len() ==> #[trigger] view_exprs(items@)[j] == items@[j]@,
            chain_spec(expr@, n) == chain_fold(xs, n),
            chain_fold(xs.take(i - 1), n) matches Ok((ds, added)) && ds == xf_descs_view(out@) && params_view(params@)
                == params_view(old(params)@) + added,
        decreases items.len() - i,
    {
        let ghost nxt = xs.take(i as int);
        assert(nxt.drop_last() =~= xs.take(i - 1));
        assert(nxt.last() == items@[i as int]@);
        let ghost before = params@;
        let ghost dso = xf_descs_view(out@);
        match parse_xf_v1(&items[i], params) {
            Ok(d) => {
                out.push(d);
                proof {
                    assert(xf_descs_view(out@) =~= dso.push(d@));
                    let added = chain_fold(xs.take(i - 1), n)->Ok_0.1;
                    assert(params_view(old(params)@).len() == n);
                    assert(params_view(before).len() == n + added.len());
                }
            },
            Err(e) => {
                proof {
                    lemma_chain_err_prefix(xs, n, i as int);
                }
                return Err(e);
            },
        }
        i = i + 1;
    }
    assert(xs.take(i - 1) =~= xs);
    Ok(out)
}


/// Buffering of a streaming file sink (0 = default).
#[derive(Debug, Clone, Copy, PartialEq, Eq, Structural)]
pub struct WorldFsWriteStreamCfgV1 {
    pub buf_cap_bytes: i32,
    pub flush_min_bytes: i32,
    pub max_flushes: i32,
}

/// What a network sink does with the stream when the pipe finishes.
#[derive(Debug, Clone, Copy, PartialEq, Eq, Structural)]
pub enum NetSinkOnFinishV1 {
    LeaveOpen,
    ShutdownWrite,
    Close,
}

/// Buffering and limits of a network sink.
#[derive(Debug, Clone, Copy, PartialEq, Eq, Structural)]
pub struct NetTcpWriteStreamHandleCfgV1 {
    pub buf_cap_bytes: i32,
    pub flush_min_bytes: i32,
    pub max_flushes: i32,
    pub max_write_calls: i32,
    pub on_finish: NetSinkOnFinishV1,
}

/// A pipe sink; `*_param` fields index the pipe's parameters.
#[derive(Debug)]
pub enum PipeSinkV1 {
    CollectBytes,
    HashFnv1a32,
    Null,
    WorldFsWriteFile { path_param: usize },
    U32Frames { inner: Box<PipeSinkDescV1> },
    WorldFsWriteStream { path_param: usize, caps_param: usize, cfg: WorldFsWriteStreamCfgV1 },
    WorldFsWriteStreamHashFnv1a32 { path_param: usize, caps_param: usize, cfg: WorldFsWriteStreamCfgV1 },
    NetTcpWriteStreamHandle { stream_handle_param: usize, caps_param: usize, cfg: NetTcpWriteStreamHandleCfgV1 },
    NetTcpConnectWrite { addr_param: usize, caps_param: usize, cfg: NetTcpWriteStreamHandleCfgV1 },
}

/// A parsed sink with the brand it requires and its pointer.
#[derive(Debug)]
pub struct PipeSinkDescV1 {
    pub kind: PipeSinkV1,
    pub in_item_brand: Option<PipeItemBrandInV1>,
    pub ptr: String,
}

pub enum PipeSinkV {
    CollectBytes,
    HashFnv1a32,
    Null,
    WorldFsWriteFile { path_param: usize },
    U32Frames { inner: Box<PipeSinkDescV> },
    WorldFsWriteStream { path_param: usize, caps_param: usize, cfg: WorldFsWriteStreamCfgV1 },
    WorldFsWriteStreamHashFnv1a32 { path_param: usize, caps_param: usize, cfg: WorldFsWriteStreamCfgV1 },
    NetTcpWriteStreamHandle { stream_handle_param: usize, caps_param: usize, cfg: NetTcpWriteStreamHandleCfgV1 },
    NetTcpConnectWrite { addr_param: usize, caps_param: usize, cfg: NetTcpWriteStreamHandleCfgV1 },
}

pub struct PipeSinkDescV {
    pub kind: PipeSinkV,
    pub in_item_brand: Option<BrandInV>,
    pub ptr: Seq<char>,
}

pub open spec fn sink_desc_view(d: PipeSinkDescV1) -> PipeSinkDescV
    decreases d, 1nat,
{
    PipeSinkDescV { kind: sink_kind_view(d.kind), in_item_brand: opt_in_view(d.in_item_brand), ptr: d.ptr@ }
}

pub open spec fn sink_kind_view(k: PipeSinkV1) -> PipeSinkV
    decreases k, 0nat,
{
    match k {
        PipeSinkV1::CollectBytes => PipeSinkV::CollectBytes,
        PipeSinkV1::HashFnv1a32 => PipeSinkV::HashFnv1a32,
        PipeSinkV1::Null => PipeSinkV::Null,
        PipeSinkV1::WorldFsWriteFile { path_param } => PipeSinkV::WorldFsWriteFile { path_param },
        PipeSinkV1::U32Frames { inner } => PipeSinkV::U32Frames { inner: Box::new(sink_desc_view(*inner)) },
        PipeSinkV1::WorldFsWriteStream { path_param, caps_param, cfg } => PipeSinkV::WorldFsWriteStream {
            path_param,
            caps_param,
            cfg,
        },
        PipeSinkV1::WorldFsWriteStreamHashFnv1a32 { path_param, caps_param, cfg } =>
            PipeSinkV::WorldFsWriteStreamHashFnv1a32 { path_param, caps_param, cfg },
        PipeSinkV1::NetTcpWriteStreamHandle { stream_handle_param, caps_param, cfg } =>
            PipeSinkV::NetTcpWriteStreamHandle { stream_handle_param, caps_param, cfg },
        PipeSinkV1::NetTcpConnectWrite { addr_param, caps_param, cfg } => PipeSinkV::NetTcpConnectWrite {
            addr_param,
            caps_param,
            cfg,
        },
    }
}

impl View for PipeSinkDescV1 {
    type V = PipeSinkDescV;

    open spec fn view(&self) -> PipeSinkDescV {
        sink_desc_view(*self)
    }
}

/// The brand field that may follow a sink's arguments.
pub open spec fn sink_tail(head: Seq<char>, tail: Seq<ExprV>) -> Result<Option<BrandInV>, Seq<char>> {
    match kv_fields_spec(head, tail) {
        Err(m) => Err(m),
        Ok(fs) => sink_brand_fields_spec(head, fs),
    }
}

/// A sink's `in_item_brand` read with its other fields (not `same`).
pub open spec fn sink_brand(head: Seq<char>, fs: Seq<(Seq<char>, ExprV)>) -> Result<Option<BrandInV>, Seq<char>> {
    match opt_brand_in(fs) {
        Err(m) => Err(m),
        Ok(Some(BrandInV::Same)) => Err(head + " in_item_brand must be \"any\" or a brand id"@),
        Ok(b) => Ok(b),
    }
}

/// The streaming file sinks: path and caps, then buffering and brand.
pub open spec fn sink_fs_stream(head: Seq<char>, items: Seq<ExprV>, ptr: Seq<char>, n: nat) -> Result<
    (PipeSinkDescV, Seq<(Ty, ExprV)>),
    Seq<char>,
> {
    if items.len() < 3 {
        Err(head + " expects at least 2 arguments"@)
    } else {
        match (expr_wrapper_inner(items[1]), expr_wrapper_inner(items[2])) {
            (Err(m), _) => Err(m),
            (Ok(_), Err(m)) => Err(m),
            (Ok(a1), Ok(a2)) => match kv_fields_spec(head, items.skip(3)) {
                Err(m) => Err(m),
                Ok(fs) => match least_unknown(
                    fs,
                    seq!["buf_cap_bytes"@, "flush_min_bytes"@, "max_flushes"@, "in_item_brand"@],
                ) {
                    Some(k) => Err(head + " unknown field: "@ + k),
                    None => match (
                        opt_pos(head, fs, "buf_cap_bytes"@),
                        opt_pos(head, fs, "flush_min_bytes"@),
                        opt_nonneg(head, fs, "max_flushes"@),
                    ) {
                        (Err(m), _, _) => Err(m),
                        (Ok(_), Err(m), _) => Err(m),
                        (Ok(_), Ok(_), Err(m)) => Err(m),
                        (Ok(b), Ok(f), Ok(mf)) => match sink_brand(head, fs) {
                            Err(m) => Err(m),
                            Ok(br) => {
                                let cfg = WorldFsWriteStreamCfgV1 {
                                    buf_cap_bytes: b,
                                    flush_min_bytes: f,
                                    max_flushes: mf,
                                };
                                let kind = if head == "std.stream.sink.world_fs_write_stream_v1"@ {
                                    PipeSinkV::WorldFsWriteStream {
                                        path_param: n as usize,
                                        caps_param: (n + 1) as usize,
                                        cfg,
                                    }
                                } else {
                                    PipeSinkV::WorldFsWriteStreamHashFnv1a32 {
                                        path_param: n as usize,
                                        caps_param: (n + 1) as usize,
                                        cfg,
                                    }
                                };
                                Ok(
                                    (
                                        PipeSinkDescV { kind, in_item_brand: br, ptr },
                                        seq![(Ty::Bytes, a1), (Ty::Bytes, a2)],
                                    ),
                                )
                            },
                        },
                    },
                },
            },
        }
    }
}

/// `on_finish` of a network sink; `connect` sinks close by default and
/// cannot leave the stream open.
pub open spec fn on_finish_spec(head: Seq<char>, fs: Seq<(Seq<char>, ExprV)>, connect: bool) -> Result<
    NetSinkOnFinishV1,
    Seq<char>,
> {
    match field_get(fs, "on_finish"@) {
        None => if connect {
            Ok(NetSinkOnFinishV1::Close)
        } else {
            Ok(NetSinkOnFinishV1::LeaveOpen)
        },
        Some(v) => if !connect && expr_ident(v) == Some("leave_open"@) {
            Ok(NetSinkOnFinishV1::LeaveOpen)
        } else if expr_ident(v) == Some("shutdown_write"@) {
            Ok(NetSinkOnFinishV1::ShutdownWrite)
        } else if expr_ident(v) == Some("close"@) {
            Ok(NetSinkOnFinishV1::Close)
        } else if connect {
            Err(head + " on_finish must be \"shutdown_write\" or \"close\""@)
        } else {
            Err(head + " on_finish must be \"leave_open\", \"shutdown_write\", or \"close\""@)
        },
    }
}

/// The buffering, finish and limits of a network sink.
pub open spec fn net_sink_cfg(head: Seq<char>, fs: Seq<(Seq<char>, ExprV)>, connect: bool) -> Result<
    NetTcpWriteStreamHandleCfgV1,
    Seq<char>,
> {
    match opt_int(fs, "buf_cap_bytes"@, 65536) {
        Err(m) => Err(m),
        Ok(b) => if b <= 0 {
            Err(head + " buf_cap_bytes must be >= 1"@)
        } else {
            match opt_int(fs, "flush_min_bytes"@, b) {
                Err(m) => Err(m),
                Ok(f) => if f <= 0 || f > b {
                    Err(head + " flush_min_bytes must be in [1..buf_cap_bytes]"@)
                } else {
                    match on_finish_spec(head, fs, connect) {
                        Err(m) => Err(m),
                        Ok(of) => match (opt_nonneg(head, fs, "max_flushes"@), opt_nonneg(head, fs, "max_write_calls"@)) {
                            (Err(m), _) => Err(m),
                            (Ok(_), Err(m)) => Err(m),
                            (Ok(mf), Ok(mw)) => Ok(
                                NetTcpWriteStreamHandleCfgV1 {
                                    buf_cap_bytes: b,
                                    flush_min_bytes: f,
                                    max_flushes: mf,
                                    max_write_calls: mw,
                                    on_finish: of,
                                },
                            ),
                        },
                    }
                },
            }
        },
    }
}

/// The network sinks: a stream handle (or an address for `connect`) and
/// caps, then the configuration and brand; `u32frames` wraps the handle
/// sink in a framing sink.
pub open spec fn sink_net(head: Seq<char>, items: Seq<ExprV>, ptr: Seq<char>, n: nat) -> Result<
    (PipeSinkDescV, Seq<(Ty, ExprV)>),
    Seq<char>,
> {
    let connect = head == "std.stream.sink.net_tcp_connect_write_v1"@;
    let first: Seq<char> = if connect {
        "addr"@
    } else {
        "stream_handle"@
    };
    match kv_fields_spec(head, items.skip(1)) {
        Err(m) => Err(m),
        Ok(fs) => match least_unknown(
            fs,
            seq![
                first,
                "caps"@,
                "buf_cap_bytes"@,
                "flush_min_bytes"@,
                "on_finish"@,
                "max_flushes"@,
                "max_write_calls"@,
                "in_item_brand"@,
            ],
        ) {
            Some(k) => Err(head + " unknown field: "@ + k),
            None => match (field_get(fs, first), field_get(fs, "caps"@)) {
                (None, _) => Err(head + " missing "@ + first),
                (Some(_), None) => Err(head + " missing caps"@),
                (Some(fv), Some(cv)) => match (expr_wrapper_inner(fv), expr_wrapper_inner(cv)) {
                    (Err(m), _) => Err(m),
                    (Ok(_), Err(m)) => Err(m),
                    (Ok(a1), Ok(a2)) => match net_sink_cfg(head, fs, connect) {
                        Err(m) => Err(m),
                        Ok(cfg) => match sink_brand(head, fs) {
                            Err(m) => Err(m),
                            Ok(br) => {
                                let added = seq![(if connect { Ty::Bytes } else { Ty::I32 }, a1), (Ty::Bytes, a2)];
                                let handle = PipeSinkV::NetTcpWriteStreamHandle {
                                    stream_handle_param: n as usize,
                                    caps_param: (n + 1) as usize,
                                    cfg,
                                };
                                let kind = if connect {
                                    PipeSinkV::NetTcpConnectWrite {
                                        addr_param: n as usize,
                                        caps_param: (n + 1) as usize,
                                        cfg,
                                    }
                                } else if head == "std.stream.sink.net_tcp_write_u32frames_v1"@ {
                                    PipeSinkV::U32Frames {
                                        inner: Box::new(PipeSinkDescV { kind: handle, in_item_brand: None, ptr }),
                                    }
                                } else {
                                    handle
                                };
                                Ok((PipeSinkDescV { kind, in_item_brand: br, ptr }, added))
                            },
                        },
                    },
                },
            },
        },
    }
}

/// A pipe sink read from its expression, given `n` earlier parameters.
pub open spec fn sink_spec(e: ExprV, n: nat) -> Result<(PipeSinkDescV, Seq<(Ty, ExprV)>), Seq<char>>
    decreases e,
{
    match e {
        ExprV::List(items, ptr) => match head_ident(items) {
            None => Err("pipe sink must start with an identifier"@),
            Some(head) => if head == "std.stream.sink.collect_bytes_v1"@ || head
                == "std.stream.sink.hash_fnv1a32_v1"@ || head == "std.stream.sink.null_v1"@ {
                match sink_tail(head, items.skip(1)) {
                    Err(m) => Err(m),
                    Ok(b) => {
                        let kind = if head == "std.stream.sink.collect_bytes_v1"@ {
                            PipeSinkV::CollectBytes
                        } else if head == "std.stream.sink.hash_fnv1a32_v1"@ {
                            PipeSinkV::HashFnv1a32
                        } else {
                            PipeSinkV::Null
                        };
                        Ok((PipeSinkDescV { kind, in_item_brand: b, ptr }, Seq::empty()))
                    },
                }
            } else if head == "std.stream.sink.world_fs_write_file_v1"@ {
                if items.len() < 2 {
                    Err(head + " expects at least 1 argument"@)
                } else {
                    match expr_wrapper_inner(items[1]) {
                        Err(m) => Err(m),
                        Ok(a) => match sink_tail(head, items.skip(2)) {
                            Err(m) => Err(m),
                            Ok(b) => Ok(
                                (
                                    PipeSinkDescV {
                                        kind: PipeSinkV::WorldFsWriteFile { path_param: n as usize },
                                        in_item_brand: b,
                                        ptr,
                                    },
                                    seq![(Ty::Bytes, a)],
                                ),
                            ),
                        },
                    }
                }
            } else if head == "std.stream.sink.u32frames_v1"@ {
                if items.len() < 2 {
                    Err(head + " expects at least 1 argument"@)
                } else {
                    match sink_spec(items[1], n) {
                        Err(m) => Err(m),
                        Ok((d, added)) => match sink_tail(head, items.skip(2)) {
                            Err(m) => Err(m),
                            Ok(b) => Ok(
                                (
                                    PipeSinkDescV { kind: PipeSinkV::U32Frames { inner: Box::new(d) }, in_item_brand: b, ptr },
                                    added,
                                ),
                            ),
                        },
                    }
                }
            } else if head == "std.stream.sink.world_fs_write_stream_v1"@ || head
                == "std.stream.sink.world_fs_write_stream_hash_fnv1a32_v1"@ {
                sink_fs_stream(head, items, ptr, n)
            } else if head == "std.stream.sink.net_tcp_write_stream_handle_v1"@ || head
                == "std.stream.sink.net_tcp_write_u32frames_v1"@ || head
                == "std.stream.sink.net_tcp_connect_write_v1"@ {
                sink_net(head, items, ptr, n)
            } else {
                Err("unsupported pipe sink: "@ + head)
            },
        },
        _ => Err("pipe sink must be a list"@),
    }
}


/// The ensures of the sink parsers: the descriptor and the parameters
/// appended, or the error.
pub open spec fn sink_result(
    s: Result<(PipeSinkDescV, Seq<(Ty, ExprV)>), Seq<char>>,
    r: Result<PipeSinkDescV1, CompilerError>,
    before: Seq<PipeParam>,
    after: Seq<PipeParam>,
) -> bool {
    match s {
        Ok((d, added)) => r matches Ok(x) && x@ == d && params_view(after) == params_view(before) + added,
        Err(m) => r matches Err(e) && is_typing_err(e, m),
    }
}

fn get_sink_tail(head: &str, items: &Vec<Expr>, start: usize) -> (r: Result<Option<PipeItemBrandInV1>, CompilerError>)
    requires
        start <= items@.len(),
    ensures
        match sink_tail(head@, view_exprs(items@).skip(start as int)) {
            Ok(b) => r matches Ok(x) && opt_in_view(x) == b,
            Err(m) => r matches Err(e) && is_typing_err(e, m),
        },
{
    let fields = parse_kv_fields(head, items, start)?;
    parse_sink_item_brand_fields(head, &fields)
}

fn get_sink_brand(head: &str, fs: &Vec<(String, Expr)>) -> (r: Result<Option<PipeItemBrandInV1>, CompilerError>)
    ensures
        match sink_brand(head@, fields_view(fs@)) {
            Ok(b) => r matches Ok(x) && opt_in_view(x) == b,
            Err(m) => r matches Err(e) && is_typing_err(e, m),
        },
{
    let b = parse_opt_brand_in(fs)?;
    if let Some(PipeItemBrandInV1::Same) = b {
        return Err(typing_with(head, " in_item_brand must be \"any\" or a brand id"));
    }
    Ok(b)
}

#[verifier::rlimit(40)]
fn parse_sink_fs_stream(head: &str, items: &Vec<Expr>, ptr: &str, params: &mut Vec<PipeParam>) -> (r: Result<
    PipeSinkDescV1,
    CompilerError,
>)
    ensures
        sink_result(sink_fs_stream(head@, view_exprs(items@), ptr@, old(params)@.len()), r, old(params)@, final(params)@),
{
    proof {
        lemma_view_exprs(items@);
    }
    if items.len() < 3 {
        return Err(typing_with(head, " expects at least 2 arguments"));
    }
    let path_param = parse_expr_v1(params, Ty::Bytes, &items[1])?;
    let caps_param = parse_expr_v1(params, Ty::Bytes, &items[2])?;
    proof {
        assert(params_view(params@) =~= params_view(old(params)@) + seq![
            (Ty::Bytes, wrapped(items@[1]@)),
            (Ty::Bytes, wrapped(items@[2]@)),
        ]);
    }
    let fields = parse_kv_fields(head, items, 3)?;
    let mut allowed: Vec<&str> = Vec::new();
    allowed.push("buf_cap_bytes");
    allowed.push("flush_min_bytes");
    allowed.push("max_flushes");
    allowed.push("in_item_brand");
    assert(strs_view(allowed@) =~= seq!["buf_cap_bytes"@, "flush_min_bytes"@, "max_flushes"@, "in_item_brand"@]);
    check_known_fields(head, &fields, &allowed)?;
    let buf_cap_bytes = get_opt_pos(head, &fields, "buf_cap_bytes")?;
    let flush_min_bytes = get_opt_pos(head, &fields, "flush_min_bytes")?;
    let max_flushes = get_opt_nonneg(head, &fields, "max_flushes")?;
    let in_item_brand = get_sink_brand(head, &fields)?;
    let cfg = WorldFsWriteStreamCfgV1 { buf_cap_bytes, flush_min_bytes, max_flushes };
    let kind = if str_eq(head, "std.stream.sink.world_fs_write_stream_v1") {
        PipeSinkV1::WorldFsWriteStream { path_param, caps_param, cfg }
    } else {
        PipeSinkV1::WorldFsWriteStreamHashFnv1a32 { path_param, caps_param, cfg }
    };
    Ok(PipeSinkDescV1 { kind, in_item_brand, ptr: ptr.to_string() })
}

fn parse_on_finish(head: &str, fs: &Vec<(String, Expr)>, connect: bool) -> (r: Result<NetSinkOnFinishV1, CompilerError>)
    ensures
        match on_finish_spec(head@, fields_view(fs@), connect) {
            Ok(t) => r == Ok::<NetSinkOnFinishV1, CompilerError>(t),
            Err(m) => r matches Err(e) && is_typing_err(e, m),
        },
{
    let v = match field_value(fs, "on_finish") {
        None => {
            return if connect {
                Ok(NetSinkOnFinishV1::Close)
            } else {
                Ok(NetSinkOnFinishV1::LeaveOpen)
            };
        },
        Some(v) => v,
    };
    if let Some(w) = v.as_ident() {
        if !connect && str_eq(w, "leave_open") {
            return Ok(NetSinkOnFinishV1::LeaveOpen);
        }
        if str_eq(w, "shutdown_write") {
            return Ok(NetSinkOnFinishV1::ShutdownWrite);
        }
        if str_eq(w, "close") {
            return Ok(NetSinkOnFinishV1::Close);
        }
    }
    if connect {
        Err(typing_with(head, " on_finish must be \"shutdown_write\" or \"close\""))
    } else {
        Err(typing_with(head, " on_finish must be \"leave_open\", \"shutdown_write\", or \"close\""))
    }
}

fn parse_net_sink_cfg(head: &str, fs: &Vec<(String, Expr)>, connect: bool) -> (r: Result<
    NetTcpWriteStreamHandleCfgV1,
    CompilerError,
>)
    ensures
        match net_sink_cfg(head@, fields_view(fs@), connect) {
            Ok(c) => r == Ok::<NetTcpWriteStreamHandleCfgV1, CompilerError>(c),
            Err(m) => r matches Err(e) && is_typing_err(e, m),
        },
{
    let buf_cap_bytes = get_opt_int(fs, "buf_cap_bytes", 65536)?;
    if buf_cap_bytes <= 0 {
        return Err(typing_with(head, " buf_cap_bytes must be >= 1"));
    }
    let flush_min_bytes = get_opt_int(fs, "flush_min_bytes", buf_cap_bytes)?;
    if flush_min_bytes <= 0 || flush_min_bytes > buf_cap_bytes {
        return Err(typing_with(head, " flush_min_bytes must be in [1..buf_cap_bytes]"));
    }
    let on_finish = parse_on_finish(head, fs, connect)?;
    let max_flushes = get_opt_nonneg(head, fs, "max_flushes")?;
    let max_write_calls = get_opt_nonneg(head, fs, "max_write_calls")?;
    Ok(NetTcpWriteStreamHandleCfgV1 { buf_cap_bytes, flush_min_bytes, max_flushes, max_write_calls, on_finish })
}

#[verifier::rlimit(60)]
fn parse_sink_net(head: &str, items: &Vec<Expr>, ptr: &str, params: &mut Vec<PipeParam>) -> (r: Result<
    PipeSinkDescV1,
    CompilerError,
>)
    requires
        items@.len() >= 1,
    ensures
        sink_result(sink_net(head@, view_exprs(items@), ptr@, old(params)@.len()), r, old(params)@, final(params)@),
{
    let connect = str_eq(head, "std.stream.sink.net_tcp_connect_write_v1");
    let first = if connect {
        "addr"
    } else {
        "stream_handle"
    };
    let fields = parse_kv_fields(head, items, 1)?;
    let mut allowed: Vec<&str> = Vec::new();
    allowed.push(first);
    allowed.push("caps");
    allowed.push("buf_cap_bytes");
    allowed.push("flush_min_bytes");
    allowed.push("on_finish");
    allowed.push("max_flushes");
    allowed.push("max_write_calls");
    allowed.push("in_item_brand");
    assert(strs_view(allowed@) =~= seq![
        first@,
        "caps"@,
        "buf_cap_bytes"@,
        "flush_min_bytes"@,
        "on_finish"@,
        "max_flushes"@,
        "max_write_calls"@,
        "in_item_brand"@,
    ]);
    check_known_fields(head, &fields, &allowed)?;
    let fv = match field_value(&fields, first) {
        Some(v) => v,
        None => {
            let m = concat_str(head, " missing ");
            return Err(typing_with(m.as_str(), first));
        },
    };
    let cv = match field_value(&fields, "caps") {
        Some(v) => v,
        None => {
            return Err(typing_with(head, " missing caps"));
        },
    };
    let first_ty = if connect {
        Ty::Bytes
    } else {
        Ty::I32
    };
    let first_param = parse_expr_v1(params, first_ty, fv)?;
    let caps_param = parse_expr_v1(params, Ty::Bytes, cv)?;
    proof {
        assert(params_view(params@) =~= params_view(old(params)@) + seq![
            (first_ty, wrapped(fv@)),
            (Ty::Bytes, wrapped(cv@)),
        ]);
    }
    let cfg = parse_net_sink_cfg(head, &fields, connect)?;
    let in_item_brand = get_sink_brand(head, &fields)?;
    let kind = if connect {
        PipeSinkV1::NetTcpConnectWrite { addr_param: first_param, caps_param, cfg }
    } else if str_eq(head, "std.stream.sink.net_tcp_write_u32frames_v1") {
        let inner = PipeSinkDescV1 {
            kind: PipeSinkV1::NetTcpWriteStreamHandle { stream_handle_param: first_param, caps_param, cfg },
            in_item_brand: None,
            ptr: ptr.to_string(),
        };
        assert(inner@ == PipeSinkDescV {
            kind: PipeSinkV::NetTcpWriteStreamHandle { stream_handle_param: first_param, caps_param, cfg },
            in_item_brand: None,
            ptr: ptr@,
        });
        PipeSinkV1::U32Frames { inner: Box::new(inner) }
    } else {
        PipeSinkV1::NetTcpWriteStreamHandle { stream_handle_param: first_param, caps_param, cfg }
    };
    Ok(PipeSinkDescV1 { kind, in_item_brand, ptr: ptr.to_string() })
}

/// Reads a pipe sink, appending the expressions it takes to `params`.
#[verifier::rlimit(60)]
pub fn parse_sink_v1(expr: &Expr, params: &mut Vec<PipeParam>) -> (r: Result<PipeSinkDescV1, CompilerError>)
    ensures
        sink_result(sink_spec(expr@, old(params)@.len()), r, old(params)@, final(params)@),
    decreases expr@,
{
    let items = match expr {
        Expr::List { items, .. } => items,
        _ => {
            return Err(typing("pipe sink must be a list".to_string()));
        },
    };
    proof {
        lemma_view_exprs(items@);
    }
    let ptr = expr.ptr();
    let head = if items.len() > 0 {
        match items[0].as_ident() {
            Some(h) => h,
            None => {
                return Err(typing("pipe sink must start with an identifier".to_string()));
            },
        }
    } else {
        return Err(typing("pipe sink must start with an identifier".to_string()));
    };
    if str_eq(head, "std.stream.sink.collect_bytes_v1") || str_eq(head, "std.stream.sink.hash_fnv1a32_v1")
        || str_eq(head, "std.stream.sink.null_v1") {
        let in_item_brand = get_sink_tail(head, items, 1)?;
        let kind = if str_eq(head, "std.stream.sink.collect_bytes_v1") {
            PipeSinkV1::CollectBytes
        } else if str_eq(head, "std.stream.sink.hash_fnv1a32_v1") {
            PipeSinkV1::HashFnv1a32
        } else {
            PipeSinkV1::Null
        };
        proof {
            assert(params_view(params@) =~= params_view(old(params)@) + Seq::<(Ty, ExprV)>::empty());
        }
        Ok(PipeSinkDescV1 { kind, in_item_brand, ptr: ptr.to_string() })
    } else if str_eq(head, "std.stream.sink.world_fs_write_file_v1") {
        if items.len() < 2 {
            return Err(typing_with(head, " expects at least 1 argument"));
        }
        let path_param = parse_expr_v1(params, Ty::Bytes, &items[1])?;
        proof {
            assert(params_view(params@) =~= params_view(old(params)@) + seq![(Ty::Bytes, wrapped(items@[1]@))]);
        }
        let in_item_brand = get_sink_tail(head, items, 2)?;
        Ok(PipeSinkDescV1 { kind: PipeSinkV1::WorldFsWriteFile { path_param }, in_item_brand, ptr: ptr.to_string() })
    } else if str_eq(head, "std.stream.sink.u32frames_v1") {
        if items.len() < 2 {
            return Err(typing_with(head, " expects at least 1 argument"));
        }
        proof {
            assert(decreases_to!(expr@ => items@[1]@)) by {
                assert(expr@ == ExprV::List(view_exprs(items@), expr_ptr(expr@)));
                assert(view_exprs(items@)[1] == items@[1]@);
            }
        }
        let inner = parse_sink_v1(&items[1], params)?;
        let in_item_brand = get_sink_tail(head, items, 2)?;
        Ok(PipeSinkDescV1 { kind: PipeSinkV1::U32Frames { inner: Box::new(inner) }, in_item_brand, ptr: ptr.to_string() })
    } else if str_eq(head, "std.stream.sink.world_fs_write_stream_v1") || str_eq(
        head,
        "std.stream.sink.world_fs_write_stream_hash_fnv1a32_v1",
    ) {
        parse_sink_fs_stream(head, items, ptr, params)
    } else if str_eq(head, "std.stream.sink.net_tcp_write_stream_handle_v1") || str_eq(
        head,
        "std.stream.sink.net_tcp_write_u32frames_v1",
    ) || str_eq(head, "std.stream.sink.net_tcp_connect_write_v1") {
        parse_sink_net(head, items, ptr, params)
    } else {
        Err(typing_with("unsupported pipe sink: ", head))
    }
}


/// A parsed pipe: configuration, source, transforms, sink and the
/// expressions the pipe evaluates as parameters, in order.
#[derive(Debug)]
pub struct PipeParsed {
    pub cfg: PipeCfgV1,
    pub src: PipeSrcDescV1,
    pub chain: Vec<PipeXfDescV1>,
    pub sink: PipeSinkDescV1,
    pub params: Vec<PipeParam>,
}

pub struct PipeParsedV {
    pub cfg: PipeCfgV,
    pub src: PipeSrcDescV,
    pub chain: Seq<PipeXfDescV>,
    pub sink: PipeSinkDescV,
    pub params: Seq<(Ty, ExprV)>,
}

impl View for PipeParsed {
    type V = PipeParsedV;

    open spec fn view(&self) -> PipeParsedV {
        PipeParsedV {
            cfg: self.cfg@,
            src: self.src@,
            chain: xf_descs_view(self.chain@),
            sink: self.sink@,
            params: params_view(self.params@),
        }
    }
}

/// A framed network read is a plain network read followed by a `u32le`
/// deframer that takes over the source's output brand.
pub open spec fn desugar_src(s: PipeSrcDescV, chain: Seq<PipeXfDescV>) -> (PipeSrcDescV, Seq<PipeXfDescV>) {
    match s.kind {
        PipeSrcV1::NetTcpReadU32Frames {
            stream_handle_param,
            caps_param,
            max_frame_bytes,
            allow_empty,
            on_timeout,
            on_eof,
        } => {
            let deframe = PipeXfDescV {
                kind: PipeXfV::DeframeU32LeV1 {
                    cfg: DeframeU32LeCfgV1 {
                        max_frame_bytes,
                        max_frames: 0,
                        allow_empty,
                        on_truncated: DeframeOnTruncatedV1::Error,
                    },
                },
                in_item_brand: None,
                out_item_brand: match s.out_item_brand {
                    None => None,
                    Some(b) => Some(BrandOutV::Brand(b)),
                },
                ptr: s.ptr,
            };
            (
                PipeSrcDescV {
                    kind: PipeSrcV1::NetTcpReadStreamHandle { stream_handle_param, caps_param, on_timeout, on_eof },
                    out_item_brand: None,
                    ptr: s.ptr,
                },
                seq![deframe] + chain,
            )
        },
        _ => (s, chain),
    }
}

/// `(std.stream.pipe_v1 cfg src chain sink)` read as a pipe.
pub open spec fn pipe_spec(e: ExprV) -> Result<PipeParsedV, Seq<char>> {
    match e {
        ExprV::List(items, _) => if items.len() != 5 {
            Err("std.stream.pipe_v1 expects 4 arguments"@)
        } else {
            match cfg_spec(items[1]) {
                Err(m) => Err(m),
                Ok(cfg) => match src_spec(items[2], 0) {
                    Err(m) => Err(m),
                    Ok((src, a1)) => match chain_spec(items[3], a1.len()) {
                        Err(m) => Err(m),
                        Ok((chain, a2)) => match sink_spec(items[4], a1.len() + a2.len()) {
                            Err(m) => Err(m),
                            Ok((sink, a3)) => {
                                let (src2, chain2) = desugar_src(src, chain);
                                Ok(PipeParsedV { cfg, src: src2, chain: chain2, sink, params: a1 + a2 + a3 })
                            },
                        },
                    },
                },
            }
        },
        _ => Err("std.stream.pipe_v1 must be a list"@),
    }
}

/// Reads `(std.stream.pipe_v1 cfg src chain sink)`; the parts are read in
/// that order and the first error is returned.
pub fn parse_pipe_v1(expr: &Expr) -> (r: Result<PipeParsed, CompilerError>)
    ensures
        match pipe_spec(expr@) {
            Ok(p) => r matches Ok(x) && x@ == p,
            Err(m) => r matches Err(e) && is_typing_err(e, m),
        },
{
    let items = match expr {
        Expr::List { items, .. } => items,
        _ => {
            return Err(typing("std.stream.pipe_v1 must be a list".to_string()));
        },
    };
    proof {
        lemma_view_exprs(items@);
    }
    if items.len() != 5 {
        return Err(typing("std.stream.pipe_v1 expects 4 arguments".to_string()));
    }
    let mut params: Vec<PipeParam> = Vec::new();
    let cfg = parse_cfg_v1(&items[1])?;
    assert(params_view(params@) =~= Seq::<(Ty, ExprV)>::empty());
    let src = parse_src_v1(&items[2], &mut params)?;
    let mut chain = parse_chain_v1(&items[3], &mut params)?;
    let ghost chain0 = xf_descs_view(chain@);
    let ghost src0 = src@;
    let src = match src.kind {
        PipeSrcV1::NetTcpReadU32Frames {
            stream_handle_param,
            caps_param,
            max_frame_bytes,
            allow_empty,
            on_timeout,
            on_eof,
        } => {
            let out_item_brand = match src.out_item_brand {
                None => None,
                Some(b) => Some(PipeItemBrandOutV1::Brand(b)),
            };
            let deframe = PipeXfDescV1 {
                kind: PipeXfV1::DeframeU32LeV1 {
                    cfg: DeframeU32LeCfgV1 {
                        max_frame_bytes,
                        max_frames: 0,
                        allow_empty,
                        on_truncated: DeframeOnTruncatedV1::Error,
                    },
                },
                in_item_brand: None,
                out_item_brand,
                ptr: src.ptr.clone(),
            };
            chain.insert(0, deframe);
            proof {
                assert(xf_descs_view(chain@) =~= seq![desugar_src(src0, chain0).1[0]] + chain0);
                assert(xf_descs_view(chain@) =~= desugar_src(src0, chain0).1);
            }
            PipeSrcDescV1 {
                kind: PipeSrcV1::NetTcpReadStreamHandle { stream_handle_param, caps_param, on_timeout, on_eof },
                out_item_brand: None,
                ptr: src.ptr,
            }
        },
        _ => src,
    };
    let sink = parse_sink_v1(&items[4], &mut params)?;
    proof {
        assert(params_view(params@) =~= pipe_spec(expr@)->Ok_0.params);
    }
    Ok(PipeParsed { cfg, src, chain, sink, params })
}

/// Whether a sink writes through the OS (files or network).
pub open spec fn sink_needs_os_spec(k: PipeSinkV) -> bool
    decreases k,
{
    match k {
        PipeSinkV::CollectBytes | PipeSinkV::HashFnv1a32 | PipeSinkV::Null => false,
        PipeSinkV::U32Frames { inner } => sink_needs_os_spec(inner.kind),
        _ => true,
    }
}

pub fn sink_needs_os(sink: &PipeSinkV1) -> (r: bool)
    ensures
        r == sink_needs_os_spec(sink_kind_view(*sink)),
    decreases sink,
{
    match sink {
        PipeSinkV1::CollectBytes | PipeSinkV1::HashFnv1a32 | PipeSinkV1::Null => false,
        PipeSinkV1::U32Frames { inner } => sink_needs_os(&inner.kind),
        _ => true,
    }
}

/// Whether a pipe reads or writes through the OS.
pub open spec fn pipe_needs_os(p: PipeParsedV) -> bool {
    ||| p.src.kind matches PipeSrcV1::DbRowsDoc { .. }
    ||| p.src.kind matches PipeSrcV1::NetTcpReadStreamHandle { .. }
    ||| sink_needs_os_spec(p.sink.kind)
}

/// Refuses a pipe that needs the OS in a world without OS access; the world
/// is given by whether it is an OS world and by its name.
pub fn validate_pipe_world_caps(pipe: &PipeParsed, world_is_os: bool, world_name: &str) -> (r: Result<
    (),
    CompilerError,
>)
    ensures
        pipe_needs_os(pipe@) && !world_is_os ==> (r matches Err(e) && e.kind == CompileErrorKind::Unsupported
            && e.message@ == "std.stream.pipe_v1 requires an OS world (run-os, run-os-sandboxed); got "@
            + world_name@),
        !(pipe_needs_os(pipe@) && !world_is_os) ==> r is Ok,
{
    let src_needs_os = match pipe.src.kind {
        PipeSrcV1::DbRowsDoc { .. } | PipeSrcV1::NetTcpReadStreamHandle { .. } => true,
        _ => false,
    };
    let needs_os = src_needs_os || sink_needs_os(&pipe.sink.kind);
    if needs_os && !world_is_os {
        return Err(
            CompilerError::new(
                CompileErrorKind::Unsupported,
                concat_str("std.stream.pipe_v1 requires an OS world (run-os, run-os-sandboxed); got ", world_name),
            ),
        );
    }
    Ok(())
}


/// The sink a pipe writes through, without its framing.
#[derive(Debug, Clone, Copy, PartialEq, Eq, Structural)]
pub enum SinkBaseV1 {
    CollectBytes,
    HashFnv1a32,
    Null,
    WorldFsWriteFile { path_param: usize },
    WorldFsWriteStream { path_param: usize, caps_param: usize, cfg: WorldFsWriteStreamCfgV1 },
    WorldFsWriteStreamHashFnv1a32 { path_param: usize, caps_param: usize, cfg: WorldFsWriteStreamCfgV1 },
    NetTcpWriteStreamHandle { stream_handle_param: usize, caps_param: usize, cfg: NetTcpWriteStreamHandleCfgV1 },
    NetTcpConnectWrite { addr_param: usize, caps_param: usize, cfg: NetTcpWriteStreamHandleCfgV1 },
}

/// A sink as a base sink and whether items are `u32le`-framed first.
#[derive(Debug, Clone, Copy, PartialEq, Eq, Structural)]
pub struct SinkShapeV1 {
    pub framing_u32frames: bool,
    pub base: SinkBaseV1,
}

/// The shape of a sink: one level of `u32frames` around a base sink.
pub open spec fn sink_shape_spec(k: PipeSinkV) -> Result<SinkShapeV1, Seq<char>>
    decreases k,
{
    match k {
        PipeSinkV::U32Frames { inner } => match sink_shape_spec(inner.kind) {
            Err(m) => Err(m),
            Ok(s) => if s.framing_u32frames {
                Err("std.stream.sink.u32frames_v1 cannot wrap another u32frames_v1"@)
            } else {
                Ok(SinkShapeV1 { framing_u32frames: true, base: s.base })
            },
        },
        PipeSinkV::CollectBytes => Ok(SinkShapeV1 { framing_u32frames: false, base: SinkBaseV1::CollectBytes }),
        PipeSinkV::HashFnv1a32 => Ok(SinkShapeV1 { framing_u32frames: false, base: SinkBaseV1::HashFnv1a32 }),
        PipeSinkV::Null => Ok(SinkShapeV1 { framing_u32frames: false, base: SinkBaseV1::Null }),
        PipeSinkV::WorldFsWriteFile { path_param } => Ok(
            SinkShapeV1 { framing_u32frames: false, base: SinkBaseV1::WorldFsWriteFile { path_param } },
        ),
        PipeSinkV::WorldFsWriteStream { path_param, caps_param, cfg } => Ok(
            SinkShapeV1 {
                framing_u32frames: false,
                base: SinkBaseV1::WorldFsWriteStream { path_param, caps_param, cfg },
            },
        ),
        PipeSinkV::WorldFsWriteStreamHashFnv1a32 { path_param, caps_param, cfg } => Ok(
            SinkShapeV1 {
                framing_u32frames: false,
                base: SinkBaseV1::WorldFsWriteStreamHashFnv1a32 { path_param, caps_param, cfg },
            },
        ),
        PipeSinkV::NetTcpWriteStreamHandle { stream_handle_param, caps_param, cfg } => Ok(
            SinkShapeV1 {
                framing_u32frames: false,
                base: SinkBaseV1::NetTcpWriteStreamHandle { stream_handle_param, caps_param, cfg },
            },
        ),
        PipeSinkV::NetTcpConnectWrite { addr_param, caps_param, cfg } => Ok(
            SinkShapeV1 {
                framing_u32frames: false,
                base: SinkBaseV1::NetTcpConnectWrite { addr_param, caps_param, cfg },
            },
        ),
    }
}

pub fn sink_shape_v1(sink: &PipeSinkV1) -> (r: Result<SinkShapeV1, CompilerError>)
    ensures
        match sink_shape_spec(sink_kind_view(*sink)) {
            Ok(sh) => r == Ok::<SinkShapeV1, CompilerError>(sh),
            Err(m) => r matches Err(e) && is_typing_err(e, m),
        },
    decreases sink,
{
    match sink {
        PipeSinkV1::U32Frames { inner } => {
            let s = sink_shape_v1(&inner.kind)?;
            if s.framing_u32frames {
                return Err(typing("std.stream.sink.u32frames_v1 cannot wrap another u32frames_v1".to_string()));
            }
            Ok(SinkShapeV1 { framing_u32frames: true, base: s.base })
        },
        PipeSinkV1::CollectBytes => Ok(SinkShapeV1 { framing_u32frames: false, base: SinkBaseV1::CollectBytes }),
        PipeSinkV1::HashFnv1a32 => Ok(SinkShapeV1 { framing_u32frames: false, base: SinkBaseV1::HashFnv1a32 }),
        PipeSinkV1::Null => Ok(SinkShapeV1 { framing_u32frames: false, base: SinkBaseV1::Null }),
        PipeSinkV1::WorldFsWriteFile { path_param } => Ok(
            SinkShapeV1 { framing_u32frames: false, base: SinkBaseV1::WorldFsWriteFile { path_param: *path_param } },
        ),
        PipeSinkV1::WorldFsWriteStream { path_param, caps_param, cfg } => Ok(
            SinkShapeV1 {
                framing_u32frames: false,
                base: SinkBaseV1::WorldFsWriteStream { path_param: *path_param, caps_param: *caps_param, cfg: *cfg },
            },
        ),
        PipeSinkV1::WorldFsWriteStreamHashFnv1a32 { path_param, caps_param, cfg } => Ok(
            SinkShapeV1 {
                framing_u32frames: false,
                base: SinkBaseV1::WorldFsWriteStreamHashFnv1a32 {
                    path_param: *path_param,
                    caps_param: *caps_param,
                    cfg: *cfg,
                },
            },
        ),
        PipeSinkV1::NetTcpWriteStreamHandle { stream_handle_param, caps_param, cfg } => Ok(
            SinkShapeV1 {
                framing_u32frames: false,
                base: SinkBaseV1::NetTcpWriteStreamHandle {
                    stream_handle_param: *stream_handle_param,
                    caps_param: *caps_param,
                    cfg: *cfg,
                },
            },
        ),
        PipeSinkV1::NetTcpConnectWrite { addr_param, caps_param, cfg } => Ok(
            SinkShapeV1 {
                framing_u32frames: false,
                base: SinkBaseV1::NetTcpConnectWrite { addr_param: *addr_param, caps_param: *caps_param, cfg: *cfg },
            },
        ),
    }
}

/// The limits a pipe helper runs with.
#[derive(Debug, Clone, Copy, PartialEq, Eq, Structural)]
pub struct PipeLimitsV1 {
    pub chunk_max_bytes: i32,
    pub bufread_cap_bytes: i32,
    pub max_in_bytes: i32,
    pub max_out_bytes: i32,
    pub max_items: i32,
    pub max_steps: i32,
    pub emit_payload: bool,
    pub emit_stats: bool,
    pub sink: SinkShapeV1,
}

/// The limits, or which configuration is invalid (the pipe then yields a
/// `stream:cfg_invalid` or `stream:fs_sink_cfg_invalid` error document).
#[derive(Debug, Clone, Copy, PartialEq, Eq, Structural)]
pub enum PipeLimitsOutcomeV1 {
    Valid(PipeLimitsV1),
    CfgInvalid,
    FsSinkCfgInvalid,
}

/// `ceil(a / b) + slack`, capped at `i32::MAX`.
pub open spec fn ceil_div_plus_capped(a: int, b: int, slack: int) -> i32 {
    let v = (a + b - 1) / b + slack;
    if v > i32::MAX {
        i32::MAX
    } else {
        v as i32
    }
}

/// The `json_canon_stream` stages of a chain, counted.
pub open spec fn json_stage_count(c: Seq<PipeXfV>) -> nat
    decreases c.len(),
{
    if c.len() == 0 {
        0
    } else {
        json_stage_count(c.drop_last()) + if c.last() is JsonCanonStreamV1 {
            1nat
        } else {
            0nat
        }
    }
}

/// `max_total_json_bytes` of the chain's JSON stage (0 without one).
pub open spec fn json_total_limit(c: Seq<PipeXfV>) -> i32
    decreases c.len(),
{
    if c.len() == 0 {
        0
    } else if c.last() is JsonCanonStreamV1 {
        c.last()->JsonCanonStreamV1_cfg.max_total_json_bytes
    } else {
        json_total_limit(c.drop_last())
    }
}

pub open spec fn chain_kinds(c: Seq<PipeXfDescV>) -> Seq<PipeXfV> {
    Seq::new(c.len(), |i: int| c[i].kind)
}

/// A streaming file sink's buffering with defaults filled in: the buffer
/// defaults to the chunk size, the flush threshold to the buffer, and the
/// flush budget to `ceil(max_out_bytes / flush_min_bytes) + 4`.
pub open spec fn fs_cfg_resolved(c: WorldFsWriteStreamCfgV1, chunk: i32, max_out: i32) -> Option<WorldFsWriteStreamCfgV1> {
    let buf = if c.buf_cap_bytes == 0 {
        chunk
    } else {
        c.buf_cap_bytes
    };
    let flush = if c.flush_min_bytes == 0 {
        buf
    } else {
        c.flush_min_bytes
    };
    if buf <= 0 || flush <= 0 || flush > buf {
        None
    } else {
        let mf = if c.max_flushes == 0 {
            ceil_div_plus_capped(if max_out < 1 { 1 } else { max_out as int }, flush as int, 4)
        } else {
            c.max_flushes
        };
        if mf <= 0 {
            None
        } else {
            Some(WorldFsWriteStreamCfgV1 { buf_cap_bytes: buf, flush_min_bytes: flush, max_flushes: mf })
        }
    }
}

/// The limits of a parsed pipe: the configuration is checked, the input
/// budget is tightened to the JSON stage's total limit, the step budget
/// defaults to `ceil(max_in_bytes / chunk_max_bytes) + 8`, and a streaming
/// file sink gets its defaults.
pub open spec fn pipe_limits_spec(p: PipeParsedV) -> Result<PipeLimitsOutcomeV1, Seq<char>> {
    let c = p.cfg;
    if c.chunk_max_bytes <= 0 || c.bufread_cap_bytes <= 0 || c.max_in_bytes <= 0 || c.max_out_bytes <= 0
        || c.max_items <= 0 || c.bufread_cap_bytes < c.chunk_max_bytes {
        Ok(PipeLimitsOutcomeV1::CfgInvalid)
    } else if json_stage_count(chain_kinds(p.chain)) > 1 {
        Err("std.stream.pipe_v1 supports at most one std.stream.xf.json_canon_stream_v1"@)
    } else {
        let jt = json_total_limit(chain_kinds(p.chain));
        let max_in = if jt > 0 && jt < c.max_in_bytes {
            jt
        } else {
            c.max_in_bytes
        };
        let max_steps = match c.max_steps {
            Some(ms) => if ms > 0 {
                ms
            } else {
                ceil_div_plus_capped(max_in as int, c.chunk_max_bytes as int, 8)
            },
            None => ceil_div_plus_capped(max_in as int, c.chunk_max_bytes as int, 8),
        };
        match sink_shape_spec(p.sink.kind) {
            Err(m) => Err(m),
            Ok(sh) => {
                let limits = |s: SinkShapeV1|
                    PipeLimitsV1 {
                        chunk_max_bytes: c.chunk_max_bytes,
                        bufread_cap_bytes: c.bufread_cap_bytes,
                        max_in_bytes: max_in,
                        max_out_bytes: c.max_out_bytes,
                        max_items: c.max_items,
                        max_steps,
                        emit_payload: match c.emit_payload {
                            Some(v) => v != 0,
                            None => true,
                        },
                        emit_stats: match c.emit_stats {
                            Some(v) => v != 0,
                            None => true,
                        },
                        sink: s,
                    };
                match sh.base {
                    SinkBaseV1::WorldFsWriteStream { path_param, caps_param, cfg } => match fs_cfg_resolved(
                        cfg,
                        c.chunk_max_bytes,
                        c.max_out_bytes,
                    ) {
                        None => Ok(PipeLimitsOutcomeV1::FsSinkCfgInvalid),
                        Some(fc) => Ok(
                            PipeLimitsOutcomeV1::Valid(
                                limits(
                                    SinkShapeV1 {
                                        base: SinkBaseV1::WorldFsWriteStream { path_param, caps_param, cfg: fc },
                                        ..sh
                                    },
                                ),
                            ),
                        ),
                    },
                    SinkBaseV1::WorldFsWriteStreamHashFnv1a32 { path_param, caps_param, cfg } => match fs_cfg_resolved(
                        cfg,
                        c.chunk_max_bytes,
                        c.max_out_bytes,
                    ) {
                        None => Ok(PipeLimitsOutcomeV1::FsSinkCfgInvalid),
                        Some(fc) => Ok(
                            PipeLimitsOutcomeV1::Valid(
                                limits(
                                    SinkShapeV1 {
                                        base: SinkBaseV1::WorldFsWriteStreamHashFnv1a32 { path_param, caps_param, cfg: fc },
                                        ..sh
                                    },
                                ),
                            ),
                        ),
                    },
                    _ => Ok(PipeLimitsOutcomeV1::Valid(limits(sh))),
                }
            },
        }
    }
}


proof fn lemma_steps_cover_input(a: int, b: int)
    requires
        a >= 1,
        b >= 1,
    ensures
        ((a + b - 1) / b + 8) * b >= a,
{
    vstd::arithmetic::div_mod::lemma_fundamental_div_mod(a + b - 1, b);
    assert(((a + b - 1) / b + 8) * b == ((a + b - 1) / b) * b + 8 * b) by (nonlinear_arith);
}

/// The limits a pipe runs under: a configuration whose sizes are not all
/// positive, or whose read buffer is smaller than a chunk, is refused; a
/// valid one keeps the configured sizes, reads at most the configured input
/// (less when a JSON stage caps it), and, unless a positive step budget is
/// given, allows enough steps to read the whole input chunk by chunk.
pub proof fn lemma_pipe_limits_sound(p: PipeParsedV)
    ensures
        ({
            let c = p.cfg;
            pipe_limits_spec(p) == Ok::<PipeLimitsOutcomeV1, Seq<char>>(PipeLimitsOutcomeV1::CfgInvalid) <==> (
            c.chunk_max_bytes <= 0 || c.bufread_cap_bytes <= 0 || c.max_in_bytes <= 0 || c.max_out_bytes <= 0
                || c.max_items <= 0 || c.bufread_cap_bytes < c.chunk_max_bytes)
        }),
        pipe_limits_spec(p) matches Ok(PipeLimitsOutcomeV1::Valid(l)) ==> ({
            let c = p.cfg;
            &&& 0 < l.chunk_max_bytes <= l.bufread_cap_bytes
            &&& l.chunk_max_bytes == c.chunk_max_bytes && l.bufread_cap_bytes == c.bufread_cap_bytes
            &&& 0 < l.max_in_bytes <= c.max_in_bytes
            &&& l.max_out_bytes == c.max_out_bytes && l.max_out_bytes > 0
            &&& l.max_items == c.max_items && l.max_items > 0
            &&& (match c.max_steps {
                Some(ms) => ms > 0,
                None => false,
            }) ==> Some(l.max_steps) == c.max_steps
            &&& !(match c.max_steps {
                Some(ms) => ms > 0,
                None => false,
            }) ==> l.max_steps == i32::MAX || l.max_steps as int * l.chunk_max_bytes as int >= l.max_in_bytes as int
        }),
{
    let c = p.cfg;
    if !(c.chunk_max_bytes <= 0 || c.bufread_cap_bytes <= 0 || c.max_in_bytes <= 0 || c.max_out_bytes <= 0
        || c.max_items <= 0 || c.bufread_cap_bytes < c.chunk_max_bytes) {
        let jt = json_total_limit(chain_kinds(p.chain));
        let max_in: i32 = if jt > 0 && jt < c.max_in_bytes {
            jt
        } else {
            c.max_in_bytes
        };
        lemma_steps_cover_input(max_in as int, c.chunk_max_bytes as int);
    }
}

fn ceil_div_plus_capped_exec(a: i32, b: i32, slack: u64) -> (r: i32)
    requires
        a >= 1,
        b >= 1,
        slack <= 8,
    ensures
        r == ceil_div_plus_capped(a as int, b as int, slack as int),
{
    let au = a as u64;
    let bu = b as u64;
    let v: u64 = (au + bu - 1) / bu + slack;
    if v > 0x7fff_ffff {
        i32::MAX
    } else {
        v as i32
    }
}

fn chain_json_limits(chain: &Vec<PipeXfDescV1>) -> (r: (usize, i32))
    ensures
        r.0 == json_stage_count(chain_kinds(xf_descs_view(chain@))) || (r.0 == 2 && json_stage_count(
            chain_kinds(xf_descs_view(chain@)),
        ) > 1),
        json_stage_count(chain_kinds(xf_descs_view(chain@))) <= 1 ==> r.1 == json_total_limit(
            chain_kinds(xf_descs_view(chain@)),
        ),
{
    let ghost ks = chain_kinds(xf_descs_view(chain@));
    let mut count: usize = 0;
    let mut total: i32 = 0;
    let mut i: usize = 0;
    assert(ks.take(0) =~= Seq::<PipeXfV>::empty());
    while i < chain.len()
        invariant
            i <= chain@.len(),
            ks == chain_kinds(xf_descs_view(chain@)),
            count <= 2,
            count == json_stage_count(ks.take(i as int)) || (count == 2 && json_stage_count(ks.take(i as int)) > 1),
            json_stage_count(ks.take(i as int)) <= 1 ==> total == json_total_limit(ks.take(i as int)),
        decreases chain.len() - i,
    {
        let ghost nxt = ks.take(i + 1);
        assert(nxt.drop_last() =~= ks.take(i as int));
        assert(nxt.last() == chain@[i as int].kind@);
        if let PipeXfV1::JsonCanonStreamV1 { cfg } = &chain[i].kind {
            if count < 2 {
                count = count + 1;
            }
            total = cfg.max_total_json_bytes;
        }
        i = i + 1;
    }
    assert(ks.take(i as int) =~= ks);
    (count, total)
}

fn resolve_fs_cfg(c: WorldFsWriteStreamCfgV1, chunk: i32, max_out: i32) -> (r: Option<WorldFsWriteStreamCfgV1>)
    ensures
        r == fs_cfg_resolved(c, chunk, max_out),
{
    let buf = if c.buf_cap_bytes == 0 {
        chunk
    } else {
        c.buf_cap_bytes
    };
    let flush = if c.flush_min_bytes == 0 {
        buf
    } else {
        c.flush_min_bytes
    };
    if buf <= 0 || flush <= 0 || flush > buf {
        return None;
    }
    let mf = if c.max_flushes == 0 {
        let out = if max_out < 1 {
            1
        } else {
            max_out
        };
        ceil_div_plus_capped_exec(out, flush, 4)
    } else {
        c.max_flushes
    };
    if mf <= 0 {
        return None;
    }
    Some(WorldFsWriteStreamCfgV1 { buf_cap_bytes: buf, flush_min_bytes: flush, max_flushes: mf })
}

/// The limits a parsed pipe's helper runs with, or which configuration is
/// invalid; two JSON canonicalizer stages, or `u32frames` inside
/// `u32frames`, are typing errors.
#[verifier::rlimit(40)]
pub fn pipe_limits_v1(pipe: &PipeParsed) -> (r: Result<PipeLimitsOutcomeV1, CompilerError>)
    ensures
        match pipe_limits_spec(pipe@) {
            Ok(o) => r == Ok::<PipeLimitsOutcomeV1, CompilerError>(o),
            Err(m) => r matches Err(e) && is_typing_err(e, m),
        },
{
    let c = &pipe.cfg;
    if c.chunk_max_bytes <= 0 || c.bufread_cap_bytes <= 0 || c.max_in_bytes <= 0 || c.max_out_bytes <= 0
        || c.max_items <= 0 || c.bufread_cap_bytes < c.chunk_max_bytes {
        return Ok(PipeLimitsOutcomeV1::CfgInvalid);
    }
    let (count, jt) = chain_json_limits(&pipe.chain);
    if count > 1 {
        return Err(
            typing("std.stream.pipe_v1 supports at most one std.stream.xf.json_canon_stream_v1".to_string()),
        );
    }
    let max_in = if jt > 0 && jt < c.max_in_bytes {
        jt
    } else {
        c.max_in_bytes
    };
    let max_steps = match c.max_steps {
        Some(ms) => if ms > 0 {
            ms
        } else {
            ceil_div_plus_capped_exec(max_in, c.chunk_max_bytes, 8)
        },
        None => ceil_div_plus_capped_exec(max_in, c.chunk_max_bytes, 8),
    };
    let sh = sink_shape_v1(&pipe.sink.kind)?;
    let emit_payload = match c.emit_payload {
        Some(v) => v != 0,
        None => true,
    };
    let emit_stats = match c.emit_stats {
        Some(v) => v != 0,
        None => true,
    };
    let sink = match sh.base {
        SinkBaseV1::WorldFsWriteStream { path_param, caps_param, cfg } => match resolve_fs_cfg(
            cfg,
            c.chunk_max_bytes,
            c.max_out_bytes,
        ) {
            None => {
                return Ok(PipeLimitsOutcomeV1::FsSinkCfgInvalid);
            },
            Some(fc) => SinkShapeV1 {
                framing_u32frames: sh.framing_u32frames,
                base: SinkBaseV1::WorldFsWriteStream { path_param, caps_param, cfg: fc },
            },
        },
        SinkBaseV1::WorldFsWriteStreamHashFnv1a32 { path_param, caps_param, cfg } => match resolve_fs_cfg(
            cfg,
            c.chunk_max_bytes,
            c.max_out_bytes,
        ) {
            None => {
                return Ok(PipeLimitsOutcomeV1::FsSinkCfgInvalid);
            },
            Some(fc) => SinkShapeV1 {
                framing_u32frames: sh.framing_u32frames,
                base: SinkBaseV1::WorldFsWriteStreamHashFnv1a32 { path_param, caps_param, cfg: fc },
            },
        },
        _ => sh,
    };
    Ok(
        PipeLimitsOutcomeV1::Valid(
            PipeLimitsV1 {
                chunk_max_bytes: c.chunk_max_bytes,
                bufread_cap_bytes: c.bufread_cap_bytes,
                max_in_bytes: max_in,
                max_out_bytes: c.max_out_bytes,
                max_items: c.max_items,
                max_steps,
                emit_payload,
                emit_stats,
                sink,
            },
        ),
    )
}


/// Every parameter index of a source is below `n`.
pub open spec fn src_params_below(k: PipeSrcV1, n: nat) -> bool {
    match k {
        PipeSrcV1::FsOpenRead { path_param } => path_param < n,
        PipeSrcV1::RrSend { key_param } => key_param < n,
        PipeSrcV1::Bytes { bytes_param } => bytes_param < n,
        PipeSrcV1::DbRowsDoc { conn_param, sql_param, params_doc_param, qcaps_doc_param } => conn_param < n
            && sql_param < n && params_doc_param < n && qcaps_doc_param < n,
        PipeSrcV1::NetTcpReadStreamHandle { stream_handle_param, caps_param, .. } => stream_handle_param < n
            && caps_param < n,
        PipeSrcV1::NetTcpReadU32Frames { stream_handle_param, caps_param, .. } => stream_handle_param < n && caps_param
            < n,
    }
}

/// Every parameter index of a transform is below `n`.
pub open spec fn xf_params_below(k: PipeXfV, n: nat) -> bool {
    match k {
        PipeXfV::Take { n_param } => n_param < n,
        PipeXfV::SplitLines { delim_param, max_line_bytes_param } => delim_param < n && max_line_bytes_param < n,
        PipeXfV::PluginV1 { cfg_param, .. } => cfg_param < n,
        PipeXfV::ParMapStreamV1 { cfg } => match cfg.ctx_param {
            Some(c) => c < n,
            None => true,
        },
        _ => true,
    }
}

/// Every parameter index of a sink (and of a sink it frames) is below `n`.
pub open spec fn sink_params_below(k: PipeSinkV, n: nat) -> bool
    decreases k,
{
    match k {
        PipeSinkV::WorldFsWriteFile { path_param } => path_param < n,
        PipeSinkV::U32Frames { inner } => sink_params_below(inner.kind, n),
        PipeSinkV::WorldFsWriteStream { path_param, caps_param, .. } => path_param < n && caps_param < n,
        PipeSinkV::WorldFsWriteStreamHashFnv1a32 { path_param, caps_param, .. } => path_param < n && caps_param < n,
        PipeSinkV::NetTcpWriteStreamHandle { stream_handle_param, caps_param, .. } => stream_handle_param < n
            && caps_param < n,
        PipeSinkV::NetTcpConnectWrite { addr_param, caps_param, .. } => addr_param < n && caps_param < n,
        _ => true,
    }
}

proof fn lemma_src_params(e: ExprV, n: nat)
    requires
        src_spec(e, n) is Ok,
        n + 4 <= usize::MAX,
    ensures
        src_params_below(src_spec(e, n)->Ok_0.0.kind, n + src_spec(e, n)->Ok_0.1.len()),
{
}

proof fn lemma_xf_params(e: ExprV, n: nat)
    requires
        xf_spec(e, n) is Ok,
        n + 2 <= usize::MAX,
    ensures
        xf_params_below(xf_spec(e, n)->Ok_0.0.kind, n + xf_spec(e, n)->Ok_0.1.len()),
{
}

proof fn lemma_sink_params(e: ExprV, n: nat)
    requires
        sink_spec(e, n) is Ok,
        n + 2 <= usize::MAX,
    ensures
        sink_params_below(sink_spec(e, n)->Ok_0.0.kind, n + sink_spec(e, n)->Ok_0.1.len()),
    decreases e,
{
    reveal_with_fuel(sink_params_below, 2);
    if let ExprV::List(items, _) = e {
        if items.len() >= 2 {
            if let Some(head) = head_ident(items) {
                if head == "std.stream.sink.u32frames_v1"@ {
                    reveal_strlit("std.stream.sink.u32frames_v1");
                    reveal_strlit("std.stream.sink.collect_bytes_v1");
                    reveal_strlit("std.stream.sink.hash_fnv1a32_v1");
                    reveal_strlit("std.stream.sink.null_v1");
                    reveal_strlit("std.stream.sink.world_fs_write_file_v1");
                    assert(sink_spec(items[1], n) is Ok);
                    lemma_sink_params(items[1], n);
                    let inner = sink_spec(items[1], n)->Ok_0;
                    let outer = sink_spec(e, n)->Ok_0;
                    assert(outer.1 == inner.1);
                    assert(outer.0.kind == PipeSinkV::U32Frames { inner: Box::new(inner.0) });
                    assert(sink_params_below(outer.0.kind, n + outer.1.len()));
                }
            }
        }
    }
}

proof fn lemma_chain_params(xs: Seq<ExprV>, n: nat)
    requires
        chain_fold(xs, n) is Ok,
        n + chain_fold(xs, n)->Ok_0.1.len() + 2 <= usize::MAX,
    ensures
        forall|i: int|
            0 <= i < chain_fold(xs, n)->Ok_0.0.len() ==> xf_params_below(
                (#[trigger] chain_fold(xs, n)->Ok_0.0[i]).kind,
                n + chain_fold(xs, n)->Ok_0.1.len(),
            ),
        chain_fold(xs, n)->Ok_0.0.len() == xs.len(),
    decreases xs.len(),
{
    if xs.len() > 0 {
        let (ds, added) = chain_fold(xs.drop_last(), n)->Ok_0;
        lemma_chain_params(xs.drop_last(), n);
        lemma_xf_params(xs.last(), n + added.len());
    }
}

/// Parameter indices of a parsed pipe refer to its parameters: every index
/// that its source, transforms and sink hold is below the number of
/// parameters the pipe collected (for pipes with fewer than `usize::MAX - 8`
/// parameters).
pub proof fn lemma_pipe_params_in_range(e: ExprV)
    requires
        pipe_spec(e) is Ok,
        pipe_spec(e)->Ok_0.params.len() + 8 <= usize::MAX,
    ensures
        ({
            let p = pipe_spec(e)->Ok_0;
            &&& src_params_below(p.src.kind, p.params.len())
            &&& forall|i: int| 0 <= i < p.chain.len() ==> xf_params_below((#[trigger] p.chain[i]).kind, p.params.len())
            &&& sink_params_below(p.sink.kind, p.params.len())
        }),
{
    if let ExprV::List(items, _) = e {
        let (src, a1) = src_spec(items[2], 0)->Ok_0;
        let (chain, a2) = chain_spec(items[3], a1.len())->Ok_0;
        let (sink, a3) = sink_spec(items[4], a1.len() + a2.len())->Ok_0;
        let total = a1.len() + a2.len() + a3.len();
        lemma_src_params(items[2], 0);
        let cl = match items[3] {
            ExprV::List(ci, _) => ci,
            _ => Seq::empty(),
        };
        lemma_chain_params(cl.drop_first(), a1.len());
        lemma_sink_params(items[4], a1.len() + a2.len());
        let p = pipe_spec(e)->Ok_0;
        assert(p.params.len() == total);
        assert forall|i: int| 0 <= i < p.chain.len() implies xf_params_below((#[trigger] p.chain[i]).kind, total) by {
            if src.kind is NetTcpReadU32Frames {
                if i > 0 {
                    assert(p.chain[i] == chain[i - 1]);
                }
            } else {
                assert(p.chain[i] == chain[i]);
            }
        }
    }
}

} // verus!

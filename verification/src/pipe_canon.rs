//! The canonical JSON form of a pipe descriptor, from which a pipe's helper
//! name is hashed: expression bodies are blanked and `(key value)` fields
//! are put in a fixed order, so that pipes that differ only in those bodies
//! or in field order share a helper.

use vstd::prelude::*;
use crate::ast::{lemma_view_exprs, view_exprs, Expr, ExprV};
use crate::suggest::{chars_le, chars_le_exec, lemma_chars_le_antisym, lemma_chars_le_total, lemma_chars_le_trans};
use crate::text::{chars_of, push_char, str_eq};

verus! {

/// The JSON values a descriptor is made of.
#[derive(Debug, PartialEq, Eq)]
pub enum PipeJson {
    Null,
    Num(i32),
    Str(String),
    Arr(Vec<PipeJson>),
}

pub enum PJ {
    Null,
    Num(i32),
    Str(Seq<char>),
    Arr(Seq<PJ>),
}

pub open spec fn view_pj(v: PipeJson) -> PJ
    decreases v, 0nat,
{
    match v {
        PipeJson::Null => PJ::Null,
        PipeJson::Num(n) => PJ::Num(n),
        PipeJson::Str(s) => PJ::Str(s@),
        PipeJson::Arr(items) => PJ::Arr(view_pjs(items@)),
    }
}

pub open spec fn view_pjs(s: Seq<PipeJson>) -> Seq<PJ>
    decreases s, 1nat,
{
    if s.len() == 0 {
        Seq::empty()
    } else {
        seq![view_pj(s[0])] + view_pjs(s.drop_first())
    }
}

impl View for PipeJson {
    type V = PJ;

    open spec fn view(&self) -> PJ {
        view_pj(*self)
    }
}

pub proof fn lemma_view_pjs(s: Seq<PipeJson>)
    ensures
        view_pjs(s).len() == s.len(),
        forall|i: int| 0 <= i < s.len() ==> #[trigger] view_pjs(s)[i] == view_pj(s[i]),
    decreases s.len(),
{
    if s.len() > 0 {
        lemma_view_pjs(s.drop_first());
        assert forall|i: int| 0 <= i < s.len() implies #[trigger] view_pjs(s)[i] == view_pj(s[i]) by {
            if i > 0 {
                assert(s.drop_first()[i - 1] == s[i]);
            }
        }
    }
}

proof fn lemma_view_pjs_eq(s: Seq<PipeJson>, t: Seq<PJ>)
    requires
        s.len() == t.len(),
        forall|i: int| 0 <= i < s.len() ==> view_pj(#[trigger] s[i]) == t[i],
    ensures
        view_pjs(s) == t,
{
    lemma_view_pjs(s);
    assert(view_pjs(s) =~= t);
}

proof fn lemma_pj_child(whole: PJ, items: Seq<PipeJson>, i: int)
    requires
        whole matches PJ::Arr(vs) && vs == view_pjs(items),
        0 <= i < items.len(),
    ensures
        decreases_to!(whole => items[i]@),
{
    lemma_view_pjs(items);
    let vs = view_pjs(items);
    assert(vs[i] == items[i]@);
    assert(decreases_to!(whole => whole->Arr_0));
    assert(decreases_to!(vs => vs[i]));
}

/// The JSON form of an expression: lists are arrays, identifiers strings
/// and integers numbers.
pub open spec fn pj_of_expr(e: ExprV) -> PJ
    decreases e, 0nat,
{
    match e {
        ExprV::Int(v, _) => PJ::Num(v),
        ExprV::Ident(n, _) => PJ::Str(n),
        ExprV::List(items, _) => PJ::Arr(pj_of_exprs(items)),
    }
}

pub open spec fn pj_of_exprs(s: Seq<ExprV>) -> Seq<PJ>
    decreases s, 1nat,
{
    if s.len() == 0 {
        Seq::empty()
    } else {
        seq![pj_of_expr(s[0])] + pj_of_exprs(s.drop_first())
    }
}

proof fn lemma_pj_of_exprs(s: Seq<ExprV>)
    ensures
        pj_of_exprs(s).len() == s.len(),
        forall|i: int| 0 <= i < s.len() ==> #[trigger] pj_of_exprs(s)[i] == pj_of_expr(s[i]),
    decreases s.len(),
{
    if s.len() > 0 {
        lemma_pj_of_exprs(s.drop_first());
        assert forall|i: int| 0 <= i < s.len() implies #[trigger] pj_of_exprs(s)[i] == pj_of_expr(s[i]) by {
            if i > 0 {
                assert(s.drop_first()[i - 1] == s[i]);
            }
        }
    }
}

pub fn expr_to_json(e: &Expr) -> (r: PipeJson)
    ensures
        r@ == pj_of_expr(e@),
    decreases e@,
{
    match e {
        Expr::Int { value, .. } => PipeJson::Num(*value),
        Expr::Ident { name, .. } => PipeJson::Str(name.as_str().to_string()),
        Expr::List { items, .. } => {
            proof {
                lemma_view_exprs(items@);
                lemma_pj_of_exprs(view_exprs(items@));
            }
            let mut out: Vec<PipeJson> = Vec::new();
            let mut i: usize = 0;
            while i < items.len()
                invariant
                    i <= items@.len(),
                    e@ == ExprV::List(view_exprs(items@), crate::ast::expr_ptr(e@)),
                    view_exprs(items@).len() == items@.len(),
                    forall|j: int| 0 <= j < items@.len() ==> #[trigger] view_exprs(items@)[j] == items@[j]@,
                    pj_of_exprs(view_exprs(items@)).len() == items@.len(),
                    forall|j: int|
                        0 <= j < items@.len() ==> #[trigger] pj_of_exprs(view_exprs(items@))[j] == pj_of_expr(
                            view_exprs(items@)[j],
                        ),
                    out@.len() == i,
                    forall|j: int| 0 <= j < i ==> view_pj(#[trigger] out@[j]) == pj_of_expr(items@[j]@),
                decreases items.len() - i,
            {
                proof {
                    crate::infer::lemma_child(e@, items@, i as int);
                }
                let x = expr_to_json(&items[i]);
                out.push(x);
                i = i + 1;
            }
            proof {
                lemma_view_pjs_eq(out@, pj_of_exprs(view_exprs(items@)));
            }
            PipeJson::Arr(out)
        },
    }
}

/// The string an array starts with (`""` otherwise): the key a field pair
/// sorts by.
pub open spec fn pj_key(v: PJ) -> Seq<char> {
    match v {
        PJ::Arr(items) => if items.len() > 0 {
            match items[0] {
                PJ::Str(s) => s,
                _ => Seq::empty(),
            }
        } else {
            Seq::empty()
        },
        _ => Seq::empty(),
    }
}

/// The head string of an array's items.
pub open spec fn head_str(items: Seq<PJ>) -> Option<Seq<char>> {
    if items.len() > 0 {
        match items[0] {
            PJ::Str(s) => Some(s),
            _ => None,
        }
    } else {
        None
    }
}

/// `v` with the body of every `(std.stream.expr_v1 body)` replaced by null.
pub open spec fn scrub(v: PJ) -> PJ
    decreases v, 0nat,
{
    match v {
        PJ::Arr(items) => if items.len() == 2 && items[0] == PJ::Str("std.stream.expr_v1"@) {
            PJ::Arr(seq![items[0], PJ::Null])
        } else {
            PJ::Arr(scrub_all(items))
        },
        _ => v,
    }
}

pub open spec fn scrub_all(s: Seq<PJ>) -> Seq<PJ>
    decreases s, 1nat,
{
    if s.len() == 0 {
        Seq::empty()
    } else {
        seq![scrub(s[0])] + scrub_all(s.drop_first())
    }
}

proof fn lemma_scrub_all(s: Seq<PJ>)
    ensures
        scrub_all(s).len() == s.len(),
        forall|i: int| 0 <= i < s.len() ==> #[trigger] scrub_all(s)[i] == scrub(s[i]),
    decreases s.len(),
{
    if s.len() > 0 {
        lemma_scrub_all(s.drop_first());
        assert forall|i: int| 0 <= i < s.len() implies #[trigger] scrub_all(s)[i] == scrub(s[i]) by {
            if i > 0 {
                assert(s.drop_first()[i - 1] == s[i]);
            }
        }
    }
}

pub fn copy_json(v: &PipeJson) -> (r: PipeJson)
    ensures
        r@ == v@,
    decreases v@,
{
    match v {
        PipeJson::Null => PipeJson::Null,
        PipeJson::Num(n) => PipeJson::Num(*n),
        PipeJson::Str(s) => PipeJson::Str(s.as_str().to_string()),
        PipeJson::Arr(items) => {
            proof {
                lemma_view_pjs(items@);
            }
            let mut out: Vec<PipeJson> = Vec::new();
            let mut i: usize = 0;
            while i < items.len()
                invariant
                    i <= items@.len(),
                    v@ == PJ::Arr(view_pjs(items@)),
                    view_pjs(items@).len() == items@.len(),
                    forall|j: int| 0 <= j < items@.len() ==> #[trigger] view_pjs(items@)[j] == items@[j]@,
                    out@.len() == i,
                    forall|j: int| 0 <= j < i ==> view_pj(#[trigger] out@[j]) == items@[j]@,
                decreases items.len() - i,
            {
                proof {
                    lemma_pj_child(v@, items@, i as int);
                }
                let x = copy_json(&items[i]);
                out.push(x);
                i = i + 1;
            }
            proof {
                lemma_view_pjs_eq(out@, view_pjs(items@));
            }
            PipeJson::Arr(out)
        },
    }
}

fn is_str(v: &PipeJson, s: &str) -> (r: bool)
    ensures
        r == (v@ == PJ::Str(s@)),
{
    match v {
        PipeJson::Str(x) => str_eq(x.as_str(), s),
        _ => false,
    }
}

/// The descriptor with every expression body blanked.
pub fn scrub_expr_bodies(v: &PipeJson) -> (r: PipeJson)
    ensures
        r@ == scrub(v@),
    decreases v@,
{
    match v {
        PipeJson::Arr(items) => {
            proof {
                lemma_view_pjs(items@);
                lemma_scrub_all(view_pjs(items@));
            }
            if items.len() == 2 && is_str(&items[0], "std.stream.expr_v1") {
                let mut out: Vec<PipeJson> = Vec::new();
                out.push(copy_json(&items[0]));
                out.push(PipeJson::Null);
                proof {
                    lemma_view_pjs_eq(out@, seq![view_pjs(items@)[0], PJ::Null]);
                }
                return PipeJson::Arr(out);
            }
            let mut out: Vec<PipeJson> = Vec::new();
            let mut i: usize = 0;
            while i < items.len()
                invariant
                    i <= items@.len(),
                    v@ == PJ::Arr(view_pjs(items@)),
                    view_pjs(items@).len() == items@.len(),
                    forall|j: int| 0 <= j < items@.len() ==> #[trigger] view_pjs(items@)[j] == items@[j]@,
                    scrub_all(view_pjs(items@)).len() == items@.len(),
                    forall|j: int|
                        0 <= j < items@.len() ==> #[trigger] scrub_all(view_pjs(items@))[j] == scrub(view_pjs(items@)[j]),
                    out@.len() == i,
                    forall|j: int| 0 <= j < i ==> view_pj(#[trigger] out@[j]) == scrub(items@[j]@),
                decreases items.len() - i,
            {
                proof {
                    lemma_pj_child(v@, items@, i as int);
                }
                let x = scrub_expr_bodies(&items[i]);
                out.push(x);
                i = i + 1;
            }
            proof {
                lemma_view_pjs_eq(out@, scrub_all(view_pjs(items@)));
            }
            PipeJson::Arr(out)
        },
        _ => copy_json(v),
    }
}


/// The values of a vector of JSON values.
pub open spec fn pjs(v: Seq<PipeJson>) -> Seq<PJ> {
    Seq::new(v.len(), |i: int| v[i]@)
}

proof fn lemma_pjs_is_view(v: Seq<PipeJson>)
    ensures
        view_pjs(v) == pjs(v),
{
    lemma_view_pjs(v);
    assert(view_pjs(v) =~= pjs(v));
}

/// Field pairs compare by their key strings.
pub open spec fn key_le(a: PJ, b: PJ) -> bool {
    chars_le(pj_key(a), pj_key(b))
}

/// `x` inserted after every element of `s`, from the end, whose key is
/// greater: the stable insertion of `x` into sorted `s`.
pub open spec fn insert_by_key(s: Seq<PJ>, x: PJ) -> Seq<PJ>
    decreases s.len(),
{
    if s.len() == 0 {
        seq![x]
    } else if key_le(s.last(), x) {
        s.push(x)
    } else {
        insert_by_key(s.drop_last(), x).push(s.last())
    }
}

/// The stable sort of `s` by key.
pub open spec fn sort_by_key(s: Seq<PJ>) -> Seq<PJ>
    decreases s.len(),
{
    if s.len() == 0 {
        s
    } else {
        insert_by_key(sort_by_key(s.drop_last()), s.last())
    }
}

/// The items from `start` on sorted by key, the first `start` kept.
pub open spec fn pair_tail(items: Seq<PJ>, start: int) -> Seq<PJ> {
    if items.len() <= start {
        items
    } else {
        items.take(start) + sort_by_key(items.skip(start))
    }
}

proof fn lemma_insert_at(s: Seq<PJ>, x: PJ, j: int)
    requires
        0 <= j <= s.len(),
        j == 0 || key_le(s[j - 1], x),
        forall|k: int| j <= k < s.len() ==> !key_le(#[trigger] s[k], x),
    ensures
        insert_by_key(s, x) == s.take(j).push(x) + s.skip(j),
    decreases s.len(),
{
    if s.len() == 0 {
        assert(s.take(j).push(x) + s.skip(j) =~= seq![x]);
    } else if key_le(s.last(), x) {
        assert(j == s.len());
        assert(s.take(j).push(x) + s.skip(j) =~= s.push(x));
    } else {
        let t = s.drop_last();
        lemma_insert_at(t, x, j);
        assert(t.take(j).push(x) + t.skip(j) + seq![s.last()] =~= s.take(j).push(x) + s.skip(j));
    }
}

/// The key of a JSON value.
fn json_key(v: &PipeJson) -> (r: Vec<char>)
    ensures
        r@ == pj_key(v@),
{
    match v {
        PipeJson::Arr(items) => {
            proof {
                lemma_view_pjs(items@);
            }
            if items.len() > 0 {
                match &items[0] {
                    PipeJson::Str(s) => chars_of(s.as_str()),
                    _ => Vec::new(),
                }
            } else {
                Vec::new()
            }
        },
        _ => Vec::new(),
    }
}

fn sorted_by_key(tail: &Vec<PipeJson>) -> (r: Vec<PipeJson>)
    ensures
        pjs(r@) == sort_by_key(pjs(tail@)),
{
    let ghost t = pjs(tail@);
    let mut sorted: Vec<PipeJson> = Vec::new();
    let mut i: usize = 0;
    assert(t.take(0) =~= Seq::<PJ>::empty());
    assert(pjs(sorted@) =~= Seq::<PJ>::empty());
    while i < tail.len()
        invariant
            i <= tail@.len(),
            t == pjs(tail@),
            pjs(sorted@) == sort_by_key(t.take(i as int)),
        decreases tail.len() - i,
    {
        let x = copy_json(&tail[i]);
        let kx = json_key(&x);
        let ghost s = pjs(sorted@);
        let mut j: usize = sorted.len();
        while j > 0
            invariant
                j <= sorted@.len(),
                s == pjs(sorted@),
                kx@ == pj_key(x@),
                forall|k: int| j <= k < s.len() ==> !key_le(#[trigger] s[k], x@),
            ensures
                j <= sorted@.len(),
                s == pjs(sorted@),
                forall|k: int| j <= k < s.len() ==> !key_le(#[trigger] s[k], x@),
                j == 0 || key_le(s[j - 1], x@),
            decreases j,
        {
            let kj = json_key(&sorted[j - 1]);
            if chars_le_exec(&kj, &kx) {
                break;
            }
            j = j - 1;
        }
        proof {
            lemma_insert_at(s, x@, j as int);
            assert(t.take(i + 1).drop_last() =~= t.take(i as int));
        }
        sorted.insert(j, x);
        proof {
            assert(pjs(sorted@) =~= s.take(j as int).push(x@) + s.skip(j as int));
        }
        i = i + 1;
    }
    assert(t.take(i as int) =~= t);
    sorted
}

/// Sorts the `(key value)` items from `start` on by key, stably.
pub fn canon_pair_tail(items: &Vec<PipeJson>, start: usize) -> (r: Vec<PipeJson>)
    ensures
        pjs(r@) == pair_tail(pjs(items@), start as int),
{
    let mut head: Vec<PipeJson> = Vec::new();
    let mut tail: Vec<PipeJson> = Vec::new();
    let mut i: usize = 0;
    while i < items.len()
        invariant
            i <= items@.len(),
            i <= start ==> pjs(head@) == pjs(items@).take(i as int) && tail@.len() == 0,
            i > start ==> pjs(head@) == pjs(items@).take(start as int) && pjs(tail@) == pjs(items@).subrange(
                start as int,
                i as int,
            ),
        decreases items.len() - i,
    {
        let x = copy_json(&items[i]);
        if i < start {
            head.push(x);
            assert(pjs(head@) =~= pjs(items@).take(i + 1));
        } else {
            tail.push(x);
            assert(pjs(tail@) =~= pjs(items@).subrange(start as int, i + 1));
        }
        i = i + 1;
    }
    if items.len() <= start {
        assert(pjs(items@).take(i as int) =~= pjs(items@));
        return head;
    }
    assert(pjs(items@).subrange(start as int, items@.len() as int) =~= pjs(items@).skip(start as int));
    let mut sorted = sorted_by_key(&tail);
    let ghost h = pjs(head@);
    let ghost so = pjs(sorted@);
    head.append(&mut sorted);
    assert(pjs(head@) =~= h + so);
    head
}

/// What `map_in_place_buf`'s items hold, gathered in order.
pub struct MipCanonV {
    pub scratch: Option<PJ>,
    pub f: Option<PJ>,
    pub clear: Option<PJ>,
    pub rest: Seq<PJ>,
}

/// One item: the first scratch size, function (bare or as `("fn" f)`) and
/// clear flag are taken; anything else stays in order.
pub open spec fn mip_canon_step(a: MipCanonV, v: PJ) -> MipCanonV {
    let other = MipCanonV { rest: a.rest.push(v), ..a };
    match v {
        PJ::Arr(arr) => {
            let h = head_str(arr);
            if h == Some("scratch_cap_bytes"@) && arr.len() == 2 {
                if a.scratch is None {
                    MipCanonV { scratch: Some(v), ..a }
                } else {
                    other
                }
            } else if h == Some("clear_before_each"@) && arr.len() == 2 {
                if a.clear is None {
                    MipCanonV { clear: Some(v), ..a }
                } else {
                    other
                }
            } else if h == Some("fn"@) && arr.len() == 2 {
                if a.f is None {
                    MipCanonV { f: Some(arr[1]), ..a }
                } else {
                    other
                }
            } else if h == Some("std.stream.fn_v1"@) {
                if a.f is None {
                    MipCanonV { f: Some(v), ..a }
                } else {
                    other
                }
            } else {
                other
            }
        },
        _ => other,
    }
}

pub open spec fn mip_canon_fold(s: Seq<PJ>) -> MipCanonV
    decreases s.len(),
{
    if s.len() == 0 {
        MipCanonV { scratch: None, f: None, clear: None, rest: Seq::empty() }
    } else {
        mip_canon_step(mip_canon_fold(s.drop_last()), s.last())
    }
}

pub open spec fn opt_seq(o: Option<PJ>) -> Seq<PJ> {
    match o {
        Some(v) => seq![v],
        None => Seq::empty(),
    }
}

/// `map_in_place_buf` items in canonical order: head, scratch size,
/// function, clear flag, then everything else in its order.
pub open spec fn mip_canon(items: Seq<PJ>) -> Seq<PJ> {
    if items.len() == 0 {
        items
    } else {
        let a = mip_canon_fold(items.skip(1));
        seq![items[0]] + opt_seq(a.scratch) + opt_seq(a.f) + opt_seq(a.clear) + a.rest
    }
}

fn json_head_is(arr: &Vec<PipeJson>, h: &str) -> (r: bool)
    ensures
        r == (head_str(pjs(arr@)) == Some(h@)),
{
    if arr.len() == 0 {
        return false;
    }
    match &arr[0] {
        PipeJson::Str(s) => str_eq(s.as_str(), h),
        _ => false,
    }
}

fn opt_push(out: &mut Vec<PipeJson>, o: Option<PipeJson>)
    ensures
        pjs(final(out)@) == pjs(old(out)@) + opt_seq(
            match o {
                Some(v) => Some(v@),
                None => None,
            },
        ),
{
    let ghost before = pjs(out@);
    match o {
        Some(v) => {
            out.push(v);
            assert(pjs(out@) =~= before + seq![v@]);
        },
        None => {
            assert(pjs(out@) =~= before + Seq::<PJ>::empty());
        },
    }
}

pub open spec fn opt_pj(o: Option<PipeJson>) -> Option<PJ> {
    match o {
        Some(v) => Some(v@),
        None => None,
    }
}

/// Puts `map_in_place_buf`'s items in canonical order.
#[verifier::rlimit(40)]
pub fn canon_map_in_place_buf(items: &Vec<PipeJson>) -> (r: Vec<PipeJson>)
    ensures
        pjs(r@) == mip_canon(pjs(items@)),
{
    let mut out: Vec<PipeJson> = Vec::new();
    if items.len() == 0 {
        assert(pjs(out@) =~= pjs(items@));
        return out;
    }
    let ghost tail = pjs(items@).skip(1);
    let mut scratch: Option<PipeJson> = None;
    let mut f: Option<PipeJson> = None;
    let mut clear: Option<PipeJson> = None;
    let mut rest: Vec<PipeJson> = Vec::new();
    let mut i: usize = 1;
    assert(tail.take(0) =~= Seq::<PJ>::empty());
    assert(pjs(rest@) =~= Seq::<PJ>::empty());
    while i < items.len()
        invariant
            1 <= i <= items@.len(),
            tail == pjs(items@).skip(1),
            mip_canon_fold(tail.take(i - 1)) == (MipCanonV {
                scratch: opt_pj(scratch),
                f: opt_pj(f),
                clear: opt_pj(clear),
                rest: pjs(rest@),
            }),
        decreases items.len() - i,
    {
        let ghost nxt = tail.take(i as int);
        assert(nxt.drop_last() =~= tail.take(i - 1));
        assert(nxt.last() == items@[i as int]@);
        let v = &items[i];
        let ghost before = pjs(rest@);
        let mut to_rest = true;
        if let PipeJson::Arr(arr) = v {
            proof {
                lemma_view_pjs(arr@);
                lemma_pjs_is_view(arr@);
            }
            if json_head_is(arr, "scratch_cap_bytes") && arr.len() == 2 {
                if scratch.is_none() {
                    scratch = Some(copy_json(v));
                    to_rest = false;
                }
            } else if json_head_is(arr, "clear_before_each") && arr.len() == 2 {
                if clear.is_none() {
                    clear = Some(copy_json(v));
                    to_rest = false;
                }
            } else if json_head_is(arr, "fn") && arr.len() == 2 {
                if f.is_none() {
                    f = Some(copy_json(&arr[1]));
                    to_rest = false;
                }
            } else if json_head_is(arr, "std.stream.fn_v1") {
                if f.is_none() {
                    f = Some(copy_json(v));
                    to_rest = false;
                }
            }
        }
        if to_rest {
            rest.push(copy_json(v));
            assert(pjs(rest@) =~= before.push(v@));
        }
        i = i + 1;
    }
    assert(tail.take(i - 1) =~= tail);
    out.push(copy_json(&items[0]));
    assert(pjs(out@) =~= seq![pjs(items@)[0]]);
    opt_push(&mut out, scratch);
    opt_push(&mut out, f);
    opt_push(&mut out, clear);
    let ghost o = pjs(out@);
    let ghost rs = pjs(rest@);
    out.append(&mut rest);
    assert(pjs(out@) =~= o + rs);
    out
}


/// Descriptor heads whose items after the head are `(key value)` pairs.
pub open spec fn is_pair_head(h: Seq<char>) -> bool {
    ||| h == "std.stream.cfg_v1"@
    ||| h == "task.scope.cfg_v1"@
    ||| h == "std.stream.sink.net_tcp_connect_write_v1"@
    ||| h == "std.stream.sink.net_tcp_write_u32frames_v1"@
    ||| h == "std.stream.sink.net_tcp_write_stream_handle_v1"@
    ||| h == "std.stream.src.net_tcp_read_stream_handle_v1"@
    ||| h == "std.stream.xf.deframe_u32le_v1"@
    ||| h == "std.stream.xf.json_canon_stream_v1"@
    ||| h == "std.stream.xf.plugin_v1"@
    ||| h == "std.stream.xf.require_brand_v1"@
    ||| h == "std.stream.xf.par_map_stream_v1"@
    ||| h == "std.stream.xf.par_map_stream_result_bytes_v1"@
    ||| h == "std.stream.xf.par_map_stream_unordered_v1"@
    ||| h == "std.stream.xf.par_map_stream_unordered_result_bytes_v1"@
}

/// Descriptor heads with two positional items before their pairs.
pub open spec fn is_fs_write_head(h: Seq<char>) -> bool {
    ||| h == "std.stream.sink.world_fs_write_stream_v1"@
    ||| h == "std.stream.sink.world_fs_write_stream_hash_fnv1a32_v1"@
}

/// The items of one array put in canonical order by its head.
pub open spec fn head_canon(items: Seq<PJ>) -> Seq<PJ> {
    match head_str(items) {
        Some(h) => if is_pair_head(h) {
            pair_tail(items, 1)
        } else if h == "std.stream.xf.map_in_place_buf_v1"@ {
            mip_canon(items)
        } else if is_fs_write_head(h) {
            pair_tail(items, 3)
        } else {
            items
        },
        None => items,
    }
}

/// Every array of `v`, from the leaves up, with its items in canonical
/// order. Canonicalizing an array keeps its length and its first item, and
/// so what its parent orders it by: children first or parent first give
/// the same value.
pub open spec fn canon(v: PJ) -> PJ
    decreases v, 0nat,
{
    match v {
        PJ::Arr(items) => PJ::Arr(head_canon(canon_all(items))),
        _ => v,
    }
}

pub open spec fn canon_all(s: Seq<PJ>) -> Seq<PJ>
    decreases s, 1nat,
{
    if s.len() == 0 {
        Seq::empty()
    } else {
        seq![canon(s[0])] + canon_all(s.drop_first())
    }
}

proof fn lemma_canon_all(s: Seq<PJ>)
    ensures
        canon_all(s).len() == s.len(),
        forall|i: int| 0 <= i < s.len() ==> #[trigger] canon_all(s)[i] == canon(s[i]),
    decreases s.len(),
{
    if s.len() > 0 {
        lemma_canon_all(s.drop_first());
        assert forall|i: int| 0 <= i < s.len() implies #[trigger] canon_all(s)[i] == canon(s[i]) by {
            if i > 0 {
                assert(s.drop_first()[i - 1] == s[i]);
            }
        }
    }
}

fn is_pair_head_exec(h: &str) -> (r: bool)
    ensures
        r == is_pair_head(h@),
{
    str_eq(h, "std.stream.cfg_v1") || str_eq(h, "task.scope.cfg_v1") || str_eq(
        h,
        "std.stream.sink.net_tcp_connect_write_v1",
    ) || str_eq(h, "std.stream.sink.net_tcp_write_u32frames_v1") || str_eq(
        h,
        "std.stream.sink.net_tcp_write_stream_handle_v1",
    ) || str_eq(h, "std.stream.src.net_tcp_read_stream_handle_v1") || str_eq(
        h,
        "std.stream.xf.deframe_u32le_v1",
    ) || str_eq(h, "std.stream.xf.json_canon_stream_v1") || str_eq(h, "std.stream.xf.plugin_v1")
        || str_eq(h, "std.stream.xf.require_brand_v1") || str_eq(
        h,
        "std.stream.xf.par_map_stream_v1",
    ) || str_eq(h, "std.stream.xf.par_map_stream_result_bytes_v1") || str_eq(
        h,
        "std.stream.xf.par_map_stream_unordered_v1",
    ) || str_eq(h, "std.stream.xf.par_map_stream_unordered_result_bytes_v1")
}

fn head_canon_exec(items: &Vec<PipeJson>) -> (r: Vec<PipeJson>)
    ensures
        pjs(r@) == head_canon(pjs(items@)),
{
    if items.len() > 0 {
        if let PipeJson::Str(h) = &items[0] {
            let hs = h.as_str();
            if is_pair_head_exec(hs) {
                return canon_pair_tail(items, 1);
            } else if str_eq(hs, "std.stream.xf.map_in_place_buf_v1") {
                return canon_map_in_place_buf(items);
            } else if str_eq(hs, "std.stream.sink.world_fs_write_stream_v1") || str_eq(
                hs,
                "std.stream.sink.world_fs_write_stream_hash_fnv1a32_v1",
            ) {
                return canon_pair_tail(items, 3);
            }
        }
    }
    // No reordering: items.len() items kept in order.
    let r = canon_pair_tail(items, items.len());
    assert(pjs(r@) =~= pjs(items@));
    r
}

/// The descriptor with the `(key value)` items of every known stream
/// descriptor sorted by key.
pub fn canon_stream_descriptor_pairs(v: &PipeJson) -> (r: PipeJson)
    ensures
        r@ == canon(v@),
    decreases v@,
{
    match v {
        PipeJson::Arr(items) => {
            proof {
                lemma_view_pjs(items@);
                lemma_canon_all(view_pjs(items@));
            }
            let mut out: Vec<PipeJson> = Vec::new();
            let mut i: usize = 0;
            while i < items.len()
                invariant
                    i <= items@.len(),
                    v@ == PJ::Arr(view_pjs(items@)),
                    view_pjs(items@).len() == items@.len(),
                    forall|j: int| 0 <= j < items@.len() ==> #[trigger] view_pjs(items@)[j] == items@[j]@,
                    canon_all(view_pjs(items@)).len() == items@.len(),
                    forall|j: int|
                        0 <= j < items@.len() ==> #[trigger] canon_all(view_pjs(items@))[j] == canon(view_pjs(items@)[j]),
                    out@.len() == i,
                    forall|j: int| 0 <= j < i ==> view_pj(#[trigger] out@[j]) == canon(items@[j]@),
                decreases items.len() - i,
            {
                proof {
                    lemma_pj_child(v@, items@, i as int);
                }
                let x = canon_stream_descriptor_pairs(&items[i]);
                out.push(x);
                i = i + 1;
            }
            assert(pjs(out@) =~= canon_all(view_pjs(items@)));
            let r = head_canon_exec(&out);
            proof {
                lemma_pjs_is_view(r@);
            }
            PipeJson::Arr(r)
        },
        _ => copy_json(v),
    }
}

/// The descriptor that a pipe's helper name is hashed from: the pipe
/// expression as JSON, its expression bodies blanked and its field pairs
/// in canonical order.
pub fn pipe_descriptor_json(pipe_expr: &Expr) -> (r: PipeJson)
    ensures
        r@ == canon(scrub(pj_of_expr(pipe_expr@))),
{
    let j = expr_to_json(pipe_expr);
    let s = scrub_expr_bodies(&j);
    canon_stream_descriptor_pairs(&s)
}


/// The BLAKE3 digest of some bytes.
pub uninterp spec fn blake3_digest(input: Seq<u8>) -> Seq<u8>;

/// `blake3::hash`: the 32-byte BLAKE3 digest, which depends on the input
/// bytes alone.
#[verifier::external_body]
fn blake3_hash(input: &[u8]) -> (r: Vec<u8>)
    ensures
        r@ == blake3_digest(input@),
        r@.len() == 32,
{
    blake3::hash(input).as_bytes().to_vec()
}

/// A lower-case hexadecimal digit.
pub open spec fn hex_digit(n: int) -> char {
    if n < 10 {
        (48 + n) as char
    } else {
        (87 + n) as char
    }
}

/// A byte as two lower-case hexadecimal digits.
pub open spec fn hex_byte(b: u8) -> Seq<char> {
    seq![hex_digit(b as int / 16), hex_digit(b as int % 16)]
}

/// The first `n` bytes of a digest in hexadecimal.
pub open spec fn hex_prefix(d: Seq<u8>, n: nat) -> Seq<char>
    decreases n,
{
    if n == 0 {
        Seq::empty()
    } else {
        hex_prefix(d, (n - 1) as nat) + hex_byte(d[n - 1])
    }
}

fn hex_digit_exec(n: u8) -> (c: char)
    requires
        n < 16,
    ensures
        c == hex_digit(n as int),
{
    if n < 10 {
        (48u8 + n) as char
    } else {
        (87u8 + n) as char
    }
}

/// The hash a pipe's helper is named by: the first four bytes of the
/// BLAKE3 digest of its canonical descriptor's JSON bytes, in hexadecimal.
pub fn pipe_hash_hex(descriptor_json: &[u8]) -> (r: String)
    ensures
        r@ == hex_prefix(blake3_digest(descriptor_json@), 4),
{
    let d = blake3_hash(descriptor_json);
    let mut out = String::new();
    let mut i: usize = 0;
    while i < 4
        invariant
            i <= 4,
            d@ == blake3_digest(descriptor_json@),
            d@.len() == 32,
            out@ == hex_prefix(d@, i as nat),
        decreases 4 - i,
    {
        let b = d[i];
        let ghost before = out@;
        push_char(&mut out, hex_digit_exec(b / 16));
        push_char(&mut out, hex_digit_exec(b % 16));
        proof {
            assert(out@ =~= before + hex_byte(b));
        }
        i = i + 1;
    }
    out
}


// ---------------------------------------------------------------------------
// Laws of the canonical descriptor.

pub open spec fn is_body(items: Seq<PJ>) -> bool {
    items.len() == 2 && items[0] == PJ::Str("std.stream.expr_v1"@)
}

/// `a` and `b` agree everywhere but inside `(std.stream.expr_v1 body)`
/// forms, whose bodies may differ.
pub open spec fn same_but_bodies(a: PJ, b: PJ) -> bool
    decreases a, 0nat,
{
    match (a, b) {
        (PJ::Arr(x), PJ::Arr(y)) => if is_body(x) || is_body(y) {
            is_body(x) && is_body(y)
        } else {
            same_but_bodies_all(x, y)
        },
        _ => a == b,
    }
}

pub open spec fn same_but_bodies_all(x: Seq<PJ>, y: Seq<PJ>) -> bool
    decreases x, 1nat,
{
    if x.len() == 0 {
        y.len() == 0
    } else {
        y.len() > 0 && same_but_bodies(x[0], y[0]) && same_but_bodies_all(x.drop_first(), y.drop_first())
    }
}

/// Descriptors that differ only in expression bodies have the same
/// canonical form, and so name the same helper.
pub proof fn lemma_descriptor_ignores_expr_bodies(a: PJ, b: PJ)
    requires
        same_but_bodies(a, b),
    ensures
        canon(scrub(a)) == canon(scrub(b)),
{
    lemma_scrub_same(a, b);
}

proof fn lemma_scrub_same(a: PJ, b: PJ)
    requires
        same_but_bodies(a, b),
    ensures
        scrub(a) == scrub(b),
    decreases a, 0nat,
{
    match (a, b) {
        (PJ::Arr(x), PJ::Arr(y)) => {
            if !(is_body(x) || is_body(y)) {
                lemma_scrub_same_all(x, y);
            } else {
                assert(x[0] == y[0]);
            }
        },
        _ => {},
    }
}

proof fn lemma_scrub_same_all(x: Seq<PJ>, y: Seq<PJ>)
    requires
        same_but_bodies_all(x, y),
    ensures
        scrub_all(x) == scrub_all(y),
    decreases x, 1nat,
{
    if x.len() > 0 {
        lemma_scrub_same(x[0], y[0]);
        lemma_scrub_same_all(x.drop_first(), y.drop_first());
    }
}

/// `s` is ordered by key.
pub open spec fn sorted_by_key_spec(s: Seq<PJ>) -> bool {
    forall|i: int, j: int| 0 <= i < j < s.len() ==> key_le(#[trigger] s[i], #[trigger] s[j])
}

proof fn lemma_insert_by_key(s: Seq<PJ>, x: PJ)
    requires
        sorted_by_key_spec(s),
    ensures
        sorted_by_key_spec(insert_by_key(s, x)),
        insert_by_key(s, x).to_multiset() == s.to_multiset().insert(x),
        insert_by_key(s, x).len() == s.len() + 1,
    decreases s.len(),
{
    broadcast use vstd::seq_lib::group_to_multiset_ensures;

    let r = insert_by_key(s, x);
    if s.len() == 0 {
        assert(r =~= seq![x]);
        assert(seq![x] =~= Seq::<PJ>::empty().push(x));
    } else if key_le(s.last(), x) {
        assert forall|i: int, j: int| 0 <= i < j < r.len() implies key_le(#[trigger] r[i], #[trigger] r[j]) by {
            if j == s.len() {
                if i < s.len() - 1 {
                    lemma_chars_le_trans(pj_key(s[i]), pj_key(s.last()), pj_key(x));
                }
            }
        }
    } else {
        let t = s.drop_last();
        assert(sorted_by_key_spec(t)) by {
            assert forall|i: int, j: int| 0 <= i < j < t.len() implies key_le(#[trigger] t[i], #[trigger] t[j]) by {
                assert(t[i] == s[i] && t[j] == s[j]);
            }
        }
        lemma_insert_by_key(t, x);
        let r0 = insert_by_key(t, x);
        lemma_chars_le_total(pj_key(s.last()), pj_key(x));
        assert forall|k: int| 0 <= k < r0.len() implies key_le(#[trigger] r0[k], s.last()) by {
            assert(r0.to_multiset().count(r0[k]) > 0);
            if r0[k] != x {
                assert(t.to_multiset().count(r0[k]) > 0);
                assert(t.contains(r0[k]));
                let m = choose|m: int| 0 <= m < t.len() && t[m] == r0[k];
                assert(s[m] == t[m]);
            }
        }
        assert forall|i: int, j: int| 0 <= i < j < r.len() implies key_le(#[trigger] r[i], #[trigger] r[j]) by {
            if j == r0.len() {
                assert(r[i] == r0[i]);
            } else {
                assert(r[i] == r0[i] && r[j] == r0[j]);
            }
        }
        assert(s =~= t.push(s.last()));
        assert(t.to_multiset().insert(x).insert(s.last()) =~= t.to_multiset().insert(s.last()).insert(x));
    }
}

/// The stable sort by key orders its items by key and keeps each of them.
pub proof fn lemma_sort_by_key(s: Seq<PJ>)
    ensures
        sorted_by_key_spec(sort_by_key(s)),
        sort_by_key(s).to_multiset() == s.to_multiset(),
    decreases s.len(),
{
    broadcast use vstd::seq_lib::group_to_multiset_ensures;

    if s.len() > 0 {
        lemma_sort_by_key(s.drop_last());
        lemma_insert_by_key(sort_by_key(s.drop_last()), s.last());
        assert(s =~= s.drop_last().push(s.last()));
    }
}

/// `canon_pair_tail` keeps the first `start` items in place and puts the
/// rest in key order, keeping every item.
pub proof fn lemma_pair_tail_orders_fields(items: Seq<PJ>, start: int)
    requires
        0 <= start < items.len(),
    ensures
        pair_tail(items, start).take(start) == items.take(start),
        sorted_by_key_spec(pair_tail(items, start).skip(start)),
        pair_tail(items, start).skip(start).to_multiset() == items.skip(start).to_multiset(),
{
    lemma_sort_by_key(items.skip(start));
    let r = pair_tail(items, start);
    assert(r.take(start) =~= items.take(start));
    assert(r.skip(start) =~= sort_by_key(items.skip(start)));
}


/// No two items of `s` share a key.
pub open spec fn distinct_keys(s: Seq<PJ>) -> bool {
    forall|i: int, j: int| 0 <= i < j < s.len() ==> pj_key(#[trigger] s[i]) != pj_key(#[trigger] s[j])
}

proof fn lemma_distinct_keys_multiset(a: Seq<PJ>, b: Seq<PJ>, u: PJ, v: PJ)
    requires
        distinct_keys(a),
        a.to_multiset() == b.to_multiset(),
        b.contains(u),
        b.contains(v),
        pj_key(u) == pj_key(v),
    ensures
        u == v,
{
    broadcast use vstd::seq_lib::group_to_multiset_ensures;

    assert(a.to_multiset().count(u) > 0);
    assert(a.to_multiset().count(v) > 0);
    assert(a.contains(u) && a.contains(v));
    let i = choose|i: int| 0 <= i < a.len() && a[i] == u;
    let j = choose|j: int| 0 <= j < a.len() && a[j] == v;
    if i < j {
        assert(pj_key(a[i]) != pj_key(a[j]));
    } else if j < i {
        assert(pj_key(a[j]) != pj_key(a[i]));
    }
}

proof fn lemma_sorted_perm_unique(a: Seq<PJ>, b: Seq<PJ>)
    requires
        sorted_by_key_spec(a),
        sorted_by_key_spec(b),
        distinct_keys(a),
        a.to_multiset() == b.to_multiset(),
    ensures
        a == b,
    decreases a.len(),
{
    broadcast use vstd::seq_lib::group_to_multiset_ensures;

    assert(a.to_multiset().len() == a.len());
    assert(b.to_multiset().len() == b.len());
    if a.len() > 0 {
        let x = a.last();
        let y = b.last();
        assert(a.to_multiset().count(x) > 0);
        assert(b.contains(x));
        assert(b.to_multiset().count(y) > 0);
        assert(a.contains(y));
        let i = choose|i: int| 0 <= i < b.len() && b[i] == x;
        let j = choose|j: int| 0 <= j < a.len() && a[j] == y;
        if x != y {
            assert(key_le(b[i], b[b.len() - 1]));
            assert(key_le(a[j], a[a.len() - 1]));
            lemma_chars_le_antisym(pj_key(x), pj_key(y));
            assert(b.contains(y));
            lemma_distinct_keys_multiset(a, b, x, y);
        }
        let a1 = a.drop_last();
        let b1 = b.drop_last();
        assert(a =~= a1.push(x));
        assert(b =~= b1.push(x));
        assert(a1.to_multiset() =~= b1.to_multiset()) by {
            assert(a1.to_multiset().insert(x) == b1.to_multiset().insert(x));
            assert forall|e: PJ| a1.to_multiset().count(e) == b1.to_multiset().count(e) by {
                assert(a1.to_multiset().insert(x).count(e) == b1.to_multiset().insert(x).count(e));
            }
        }
        assert(sorted_by_key_spec(a1)) by {
            assert forall|p: int, q: int| 0 <= p < q < a1.len() implies key_le(#[trigger] a1[p], #[trigger] a1[q]) by {
                assert(a1[p] == a[p] && a1[q] == a[q]);
            }
        }
        assert(sorted_by_key_spec(b1)) by {
            assert forall|p: int, q: int| 0 <= p < q < b1.len() implies key_le(#[trigger] b1[p], #[trigger] b1[q]) by {
                assert(b1[p] == b[p] && b1[q] == b[q]);
            }
        }
        assert(distinct_keys(a1)) by {
            assert forall|p: int, q: int| 0 <= p < q < a1.len() implies pj_key(#[trigger] a1[p]) != pj_key(#[trigger] a1[q]) by {
                assert(a1[p] == a[p] && a1[q] == a[q]);
            }
        }
        lemma_sorted_perm_unique(a1, b1);
    }
}

/// Field pairs with distinct keys come out of `canon_pair_tail` in the same
/// order whatever order they were written in.
pub proof fn lemma_pair_tail_ignores_field_order(x: Seq<PJ>, y: Seq<PJ>, start: int)
    requires
        0 <= start < x.len(),
        start <= y.len(),
        x.take(start) == y.take(start),
        x.skip(start).to_multiset() == y.skip(start).to_multiset(),
        distinct_keys(x.skip(start)),
    ensures
        pair_tail(x, start) == pair_tail(y, start),
{
    broadcast use vstd::seq_lib::group_to_multiset_ensures;

    assert(x.skip(start).to_multiset().len() == x.skip(start).len());
    assert(y.skip(start).to_multiset().len() == y.skip(start).len());
    assert(y.take(start).len() == start);
    lemma_sort_by_key(x.skip(start));
    lemma_sort_by_key(y.skip(start));
    let sx = sort_by_key(x.skip(start));
    let sy = sort_by_key(y.skip(start));
    assert(distinct_keys(sx)) by {
        assert forall|p: int, q: int| 0 <= p < q < sx.len() implies pj_key(#[trigger] sx[p]) != pj_key(#[trigger] sx[q]) by {
            if pj_key(sx[p]) == pj_key(sx[q]) {
                assert(sx.to_multiset().count(sx[p]) > 0);
                assert(sx.to_multiset().count(sx[q]) > 0);
                lemma_distinct_keys_multiset(x.skip(start), sx, sx[p], sx[q]);
                assert(sx.to_multiset().count(sx[p]) >= 2) by {
                    let t = sx.remove(q);
                    assert(t.to_multiset() =~= sx.to_multiset().remove(sx[q]));
                    assert(t[p] == sx[p]);
                    assert(t.contains(sx[p]));
                    assert(t.to_multiset().count(sx[p]) > 0);
                }
                assert(x.skip(start).to_multiset().count(sx[p]) >= 2);
                lemma_distinct_count(x.skip(start), sx[p]);
            }
        }
    }
    lemma_sorted_perm_unique(sx, sy);
    assert(y.skip(start).len() == x.skip(start).len());
    assert(y.len() > start);
    assert(pair_tail(x, start) == x.take(start) + sx);
    assert(pair_tail(y, start) == y.take(start) + sy);
}

proof fn lemma_distinct_count(s: Seq<PJ>, e: PJ)
    requires
        distinct_keys(s),
    ensures
        s.to_multiset().count(e) <= 1,
    decreases s.len(),
{
    broadcast use vstd::seq_lib::group_to_multiset_ensures;

    if s.len() > 0 {
        let t = s.drop_last();
        assert(s =~= t.push(s.last()));
        assert(distinct_keys(t)) by {
            assert forall|p: int, q: int| 0 <= p < q < t.len() implies pj_key(#[trigger] t[p]) != pj_key(#[trigger] t[q]) by {
                assert(t[p] == s[p] && t[q] == s[q]);
            }
        }
        lemma_distinct_count(t, e);
        if e == s.last() && t.to_multiset().count(e) > 0 {
            assert(t.contains(e));
            let k = choose|k: int| 0 <= k < t.len() && t[k] == e;
            assert(pj_key(s[k]) != pj_key(s[s.len() - 1]));
        }
    }
}

} // verus!

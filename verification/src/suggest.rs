//! Deterministic near-match ranking for unknown symbol/module queries.
//!
//! Typecheck unknown-callee diagnostics and `x07 doc` not-found suggestions
//! use it so that a query gets "did you mean" candidates instead of a dead end.

use vstd::prelude::*;
use vstd::utf8::encode_utf8;
use crate::text::{chars_of, chars_rfind, chars_contain_infix, chars_eq, last_index_of, seq_has_infix, string_of};

verus! {

/// Levenshtein edit distance (insert, delete, substitute; unit costs).
pub open spec fn lev(a: Seq<char>, b: Seq<char>) -> nat
    decreases a.len() + b.len(),
{
    if a.len() == 0 {
        b.len()
    } else if b.len() == 0 {
        a.len()
    } else {
        let sub = lev(a.drop_last(), b.drop_last()) + if a.last() == b.last() { 0nat } else { 1nat };
        let del = lev(a.drop_last(), b) + 1;
        let ins = lev(a, b.drop_last()) + 1;
        min3(sub, del, ins)
    }
}

pub open spec fn min3(x: nat, y: nat, z: nat) -> nat {
    let m = if x <= y { x } else { y };
    if m <= z { m } else { z }
}

/// The distance is at least the difference of the lengths and at most the longer length.
pub proof fn lemma_lev_bounds(a: Seq<char>, b: Seq<char>)
    ensures
        a.len() - b.len() <= lev(a, b),
        b.len() - a.len() <= lev(a, b),
        lev(a, b) <= if a.len() >= b.len() { a.len() } else { b.len() },
    decreases a.len() + b.len(),
{
    if a.len() > 0 && b.len() > 0 {
        lemma_lev_bounds(a.drop_last(), b.drop_last());
        lemma_lev_bounds(a.drop_last(), b);
        lemma_lev_bounds(a, b.drop_last());
    }
}

/// The distance is zero exactly between equal names.
pub proof fn lemma_lev_zero_iff_equal(a: Seq<char>, b: Seq<char>)
    ensures
        lev(a, b) == 0 <==> a == b,
    decreases a.len() + b.len(),
{
    if a.len() > 0 && b.len() > 0 {
        lemma_lev_zero_iff_equal(a.drop_last(), b.drop_last());
        lemma_lev_bounds(a.drop_last(), b);
        lemma_lev_bounds(a, b.drop_last());
        if a == b {
            assert(a.drop_last() == b.drop_last());
        } else if lev(a, b) == 0 {
            assert(a.drop_last() == b.drop_last());
            assert(a =~= a.drop_last().push(a.last()));
            assert(b =~= b.drop_last().push(b.last()));
        }
    } else if a.len() == 0 && b.len() == 0 {
        assert(a =~= b);
    }
}

/// If every entry of DP row `i` exceeds `cap`, so does every entry of row `i + 1`.
pub proof fn lemma_lev_row_grows(a: Seq<char>, b: Seq<char>, i: int, j: int, cap: nat)
    requires
        0 <= i < a.len(),
        0 <= j <= b.len(),
        forall|k: int| 0 <= k <= b.len() ==> #[trigger] lev(a.take(i), b.take(k)) > cap,
    ensures
        lev(a.take(i + 1), b.take(j)) > cap,
    decreases j,
{
    if j == 0 {
        assert(lev(a.take(i), b.take(0)) > cap);
        assert(a.take(i).len() == i);
    } else {
        lemma_lev_row_grows(a, b, i, j - 1, cap);
        assert(a.take(i + 1).drop_last() =~= a.take(i));
        assert(b.take(j).drop_last() =~= b.take(j - 1));
        assert(lev(a.take(i), b.take(j - 1)) > cap);
        assert(lev(a.take(i), b.take(j)) > cap);
    }
}

pub proof fn lemma_lev_rows_exceed(a: Seq<char>, b: Seq<char>, i: int, cap: nat)
    requires
        0 <= i <= a.len(),
        forall|k: int| 0 <= k <= b.len() ==> #[trigger] lev(a.take(i), b.take(k)) > cap,
    ensures
        lev(a, b) > cap,
    decreases a.len() - i,
{
    if i == a.len() {
        assert(a.take(i) =~= a);
        assert(b.take(b.len() as int) =~= b);
        assert(lev(a.take(i), b.take(b.len() as int)) > cap);
    } else {
        assert forall|k: int| 0 <= k <= b.len() implies #[trigger] lev(a.take(i + 1), b.take(k))
            > cap by {
            lemma_lev_row_grows(a, b, i, k, cap);
        }
        lemma_lev_rows_exceed(a, b, i + 1, cap);
    }
}

/// Edit distance when at most `cap`.
pub open spec fn lev_capped(a: Seq<char>, b: Seq<char>, cap: nat) -> Option<nat> {
    if lev(a, b) <= cap {
        Some(lev(a, b))
    } else {
        None
    }
}

fn min_usize(x: usize, y: usize) -> (r: usize)
    ensures
        r == if x <= y { x } else { y },
{
    if x <= y { x } else { y }
}

/// Bounded Levenshtein distance; `None` when the distance exceeds `cap`.
fn levenshtein_capped(a: &Vec<char>, b: &Vec<char>, cap: usize) -> (r: Option<usize>)
    requires
        a.len() < usize::MAX,
        b.len() < usize::MAX,
    ensures
        match r {
            Some(d) => lev_capped(a@, b@, cap as nat) == Some(d as nat),
            None => lev_capped(a@, b@, cap as nat) is None,
        },
{
    proof {
        lemma_lev_bounds(a@, b@);
    }
    let diff = if a.len() >= b.len() { a.len() - b.len() } else { b.len() - a.len() };
    if diff > cap {
        return None;
    }
    let m = b.len();
    let mut prev: Vec<usize> = Vec::with_capacity(m + 1);
    let mut j: usize = 0;
    while j <= m
        invariant
            m == b.len(),
            m < usize::MAX,
            j <= m + 1,
            prev@.len() == j,
            forall|k: int| 0 <= k < j ==> #[trigger] prev@[k] == lev(a@.take(0), b@.take(k)),
        decreases m + 1 - j,
    {
        proof {
            assert(lev(a@.take(0), b@.take(j as int)) == j);
        }
        prev.push(j);
        j = j + 1;
    }
    let mut cur: Vec<usize> = Vec::with_capacity(m + 1);
    let mut j: usize = 0;
    while j <= m
        invariant
            m < usize::MAX,
            j <= m + 1,
            cur@.len() == j,
        decreases m + 1 - j,
    {
        cur.push(0);
        j = j + 1;
    }
    let mut i: usize = 0;
    while i < a.len()
        invariant
            m == b.len(),
            m < usize::MAX,
            a.len() < usize::MAX,
            i <= a.len(),
            prev@.len() == m + 1,
            cur@.len() == m + 1,
            forall|k: int| 0 <= k <= m ==> #[trigger] prev@[k] == lev(a@.take(i as int), b@.take(k)),
        decreases a.len() - i,
    {
        let ca = a[i];
        proof {
            let ai1 = a@.take(i + 1);
            assert(ai1.drop_last() =~= a@.take(i as int));
            assert(ai1.len() == i + 1);
            assert(lev(ai1, b@.take(0)) == i + 1);
        }
        cur.set(0, i + 1);
        let mut row_min: usize = i + 1;
        let mut j: usize = 0;
        while j < m
            invariant
                m == b.len(),
                m < usize::MAX,
                a.len() < usize::MAX,
                i < a.len(),
                ca == a@[i as int],
                j <= m,
                prev@.len() == m + 1,
                cur@.len() == m + 1,
                forall|k: int| 0 <= k <= m ==> #[trigger] prev@[k] == lev(a@.take(i as int), b@.take(k)),
                forall|k: int| 0 <= k <= j ==> #[trigger] cur@[k] == lev(a@.take(i + 1), b@.take(k)),
                row_min <= i + 1,
                forall|k: int| 0 <= k <= j ==> row_min <= #[trigger] cur@[k],
            decreases m - j,
        {
            let cb = b[j];
            proof {
                let ai1 = a@.take(i + 1);
                let bj1 = b@.take(j + 1);
                assert(ai1.drop_last() =~= a@.take(i as int));
                assert(bj1.drop_last() =~= b@.take(j as int));
                assert(ai1.last() == ca);
                assert(bj1.last() == cb);
                lemma_lev_bounds(a@.take(i as int), b@.take(j as int));
                lemma_lev_bounds(a@.take(i as int), b@.take(j + 1));
                lemma_lev_bounds(a@.take(i + 1), b@.take(j as int));
            }
            let cost: usize = if ca != cb { 1 } else { 0 };
            let v = min_usize(min_usize(prev[j] + cost, prev[j + 1] + 1), cur[j] + 1);
            cur.set(j + 1, v);
            row_min = min_usize(row_min, v);
            j = j + 1;
        }
        if row_min > cap {
            proof {
                assert forall|k: int| 0 <= k <= b@.len() implies #[trigger] lev(
                    a@.take(i + 1),
                    b@.take(k),
                ) > cap by {
                    assert(cur@[k] >= row_min);
                }
                lemma_lev_rows_exceed(a@, b@, i + 1, cap as nat);
            }
            return None;
        }
        let tmp = prev;
        prev = cur;
        cur = tmp;
        i = i + 1;
    }
    proof {
        assert(a@.take(a.len() as int) =~= a@);
        assert(b@.take(m as int) =~= b@);
    }
    if prev[m] <= cap {
        Some(prev[m])
    } else {
        None
    }
}

} // verus!

verus! {

/// Part of `s` after its last `.` (all of `s` when there is none).
pub open spec fn leaf_of(s: Seq<char>) -> Seq<char> {
    match last_index_of(s, '.') {
        Some(i) => s.subrange(i + 1, s.len() as int),
        None => s,
    }
}

/// Part of `s` before its last `.` (empty when there is none).
pub open spec fn prefix_of(s: Seq<char>) -> Seq<char> {
    match last_index_of(s, '.') {
        Some(i) => s.subrange(0, i),
        None => Seq::empty(),
    }
}

/// Length in UTF-8 bytes, as `str::len` reports it.
pub open spec fn byte_len(s: Seq<char>) -> nat {
    (encode_utf8(s).len() as usize) as nat
}

pub open spec fn spec_leaf_threshold(leaf_len: nat) -> nat {
    if leaf_len / 3 >= 1 { leaf_len / 3 } else { 1 }
}

/// `query.len() / 4` clamped to `1..=3`.
pub open spec fn whole_cap(n: nat) -> nat {
    if n / 4 < 1 { 1 } else if n / 4 > 3 { 3 } else { n / 4 }
}

/// The leaf threshold is a third of the leaf's length, rounded down, but at
/// least one; the whole-name cap is a quarter of the name's length, rounded
/// down, clamped to one through three.
pub proof fn lemma_thresholds(n: nat)
    ensures
        spec_leaf_threshold(n) >= 1,
        n >= 3 ==> 3 * spec_leaf_threshold(n) <= n && n < 3 * (spec_leaf_threshold(n) + 1),
        n < 3 ==> spec_leaf_threshold(n) == 1,
        1 <= whole_cap(n) <= 3,
        whole_cap(n) > 1 ==> 4 * whole_cap(n) <= n,
        whole_cap(n) < 3 ==> n < 4 * (whole_cap(n) + 1),
{
}

/// The score of a substring hit: above every leaf typo the query's threshold
/// `cap` admits (those score at most `3 + 2 * cap`), and 8 at the least.
pub open spec fn substring_base(cap: nat) -> nat {
    if 4 + 2 * cap > 8 { 4 + 2 * cap } else { 8 }
}

/// The tier a candidate falls in: 0 for an exact leaf match, 1 for a leaf
/// typo, 2 for a substring hit, 3 for a whole-name typo, 4 for none of these.
pub open spec fn score_tier(query: Seq<char>, candidate: Seq<char>) -> nat {
    let ql = leaf_of(query);
    let cl = leaf_of(candidate);
    if cl == ql {
        0
    } else if lev_capped(ql, cl, spec_leaf_threshold(byte_len(ql))) is Some {
        1
    } else if (byte_len(ql) >= 3 && seq_has_infix(cl, ql)) || (seq_has_infix(ql, cl) && byte_len(cl) * 2
        >= byte_len(ql)) {
        2
    } else if lev_capped(query, candidate, whole_cap(byte_len(query))) is Some {
        3
    } else {
        4
    }
}

/// Score of a candidate against the query; lower is better, `None` means not
/// a plausible suggestion. Exact leaf matches rank first, then leaf typos
/// (edit distance), then substring hits, then whole-name typos: each tier
/// scores below the next (`lemma_score_respects_tiers`).
pub open spec fn spec_score(query: Seq<char>, candidate: Seq<char>) -> Option<nat> {
    if candidate == query {
        None
    } else {
        let ql = leaf_of(query);
        let cl = leaf_of(candidate);
        let same_prefix = prefix_of(query).len() > 0 && prefix_of(query) == prefix_of(candidate);
        let bonus: nat = if same_prefix { 0 } else { 1 };
        if cl == ql {
            Some(bonus)
        } else {
            match lev_capped(ql, cl, spec_leaf_threshold(byte_len(ql))) {
                Some(d) => Some(2 + 2 * d + bonus),
                None => {
                    let forward = byte_len(ql) >= 3 && seq_has_infix(cl, ql);
                    let reverse = seq_has_infix(ql, cl) && byte_len(cl) * 2 >= byte_len(ql);
                    let base = substring_base(spec_leaf_threshold(byte_len(ql)));
                    if forward || reverse {
                        Some(base + bonus)
                    } else {
                        match lev_capped(query, candidate, whole_cap(byte_len(query))) {
                            Some(d) => Some(base + 4 + 2 * d),
                            None => None,
                        }
                    }
                },
            }
        }
    }
}

/// Scores follow the tiers: a candidate in a lower tier scores strictly
/// lower, and a candidate has a score exactly when it is not the query and
/// falls in one of the four tiers.
pub proof fn lemma_score_respects_tiers(query: Seq<char>, c1: Seq<char>, c2: Seq<char>)
    ensures
        spec_score(query, c1) is Some <==> c1 != query && score_tier(query, c1) < 4,
        c1 != query && c2 != query && score_tier(query, c1) < score_tier(query, c2) && score_tier(query, c2)
            < 4 ==> spec_score(query, c1)->0 < spec_score(query, c2)->0,
{
}

/// Between two candidates with the same leaf, the one in the query's own
/// (non-empty) module scores exactly one less than the one elsewhere, so it
/// ranks strictly first: an exact leaf scores `0` against `1`, and a leaf
/// typo at edit distance `d` within the leaf threshold scores `2 + 2d`
/// against `3 + 2d`.
pub proof fn lemma_same_module_ranks_first(query: Seq<char>, c1: Seq<char>, c2: Seq<char>)
    requires
        c1 != query,
        c2 != query,
        leaf_of(c1) == leaf_of(c2),
        prefix_of(query).len() > 0,
        prefix_of(c1) == prefix_of(query),
        prefix_of(c2) != prefix_of(query),
    ensures
        leaf_of(c1) == leaf_of(query) ==> spec_score(query, c1) == Some(0nat) && spec_score(query, c2) == Some(1nat),
        ({
            let d = lev(leaf_of(query), leaf_of(c1));
            leaf_of(c1) != leaf_of(query) && d <= spec_leaf_threshold(byte_len(leaf_of(query))) ==> spec_score(
                query,
                c1,
            ) == Some(2 + 2 * d) && spec_score(query, c2) == Some(3 + 2 * d)
        }),
        score_tier(query, c1) < 3 ==> spec_score(query, c1) is Some && spec_score(query, c2) == Some(
            spec_score(query, c1)->0 + 1,
        ),
{
}

/// Whole-name typos rank by their edit distance to the whole query: of two
/// candidates in that tier, the closer one scores lower, whatever their
/// modules; leaf typos likewise rank by leaf distance when they are in the
/// same relation to the query's module.
pub proof fn lemma_typos_rank_by_distance(query: Seq<char>, c1: Seq<char>, c2: Seq<char>)
    requires
        c1 != query,
        c2 != query,
    ensures
        score_tier(query, c1) == 3 && score_tier(query, c2) == 3 ==> (spec_score(query, c1)->0 < spec_score(
            query,
            c2,
        )->0 <==> lev(query, c1) < lev(query, c2)),
        score_tier(query, c1) == 1 && score_tier(query, c2) == 1 && (prefix_of(query).len() > 0 && prefix_of(query)
            == prefix_of(c1)) == (prefix_of(query).len() > 0 && prefix_of(query) == prefix_of(c2)) ==> (spec_score(
            query,
            c1,
        )->0 < spec_score(query, c2)->0 <==> lev(leaf_of(query), leaf_of(c1)) < lev(leaf_of(query), leaf_of(c2))),
{
}

fn leaf_threshold(leaf_len: usize) -> (r: usize)
    ensures
        r == spec_leaf_threshold(leaf_len as nat),
{
    let t = leaf_len / 3;
    if t >= 1 { t } else { 1 }
}

fn leaf(name: &str) -> (r: &str)
    ensures
        r@ == leaf_of(name@),
{
    let v = chars_of(name);
    proof {
        crate::text::lemma_last_index_of(v@, '.');
    }
    match chars_rfind(&v, '.') {
        Some(i) => {
            assert(i < v@.len());
            name.substring_char(i + 1, v.len())
        },
        None => name,
    }
}

fn prefix(name: &str) -> (r: &str)
    ensures
        r@ == prefix_of(name@),
{
    let v = chars_of(name);
    proof {
        crate::text::lemma_last_index_of(v@, '.');
    }
    match chars_rfind(&v, '.') {
        Some(i) => name.substring_char(0, i),
        None => {
            let e = name.substring_char(0, 0);
            assert(e@ =~= Seq::<char>::empty());
            e
        },
    }
}

fn score(query: &str, candidate: &str) -> (r: Option<usize>)
    requires
        query@.len() < usize::MAX,
        candidate@.len() < usize::MAX,
    ensures
        match r {
            Some(s) => spec_score(query@, candidate@) == Some(s as nat),
            None => spec_score(query@, candidate@) is None,
        },
{
    let qv = chars_of(query);
    let cv = chars_of(candidate);
    if chars_eq(&cv, &qv) {
        return None;
    }
    let q_leaf = leaf(query);
    let c_leaf = leaf(candidate);
    let q_prefix = prefix(query);
    let c_prefix = prefix(candidate);
    let qpv = chars_of(q_prefix);
    let cpv = chars_of(c_prefix);
    let same_prefix = !q_prefix.is_empty() && chars_eq(&qpv, &cpv);
    let prefix_bonus: usize = if same_prefix { 0 } else { 1 };
    let qlv = chars_of(q_leaf);
    let clv = chars_of(c_leaf);
    if chars_eq(&clv, &qlv) {
        return Some(prefix_bonus);
    }
    proof {
        crate::text::lemma_last_index_of(query@, '.');
        crate::text::lemma_last_index_of(candidate@, '.');
    }
    let cap = leaf_threshold(q_leaf.len());
    if let Some(d) = levenshtein_capped(&qlv, &clv, cap) {
        proof {
            lemma_lev_bounds(qlv@, clv@);
        }
        return Some(2 + 2 * d + prefix_bonus);
    }
    let q_len = q_leaf.len();
    let c_len = c_leaf.len();
    let forward = q_len >= 3 && chars_contain_infix(&clv, &qlv);
    let reverse = chars_contain_infix(&qlv, &clv) && (c_len as u128) * 2 >= q_len as u128;
    let base: usize = if 4 + 2 * cap > 8 { 4 + 2 * cap } else { 8 };
    if forward || reverse {
        return Some(base + prefix_bonus);
    }
    let n = query.len() / 4;
    let cap2 = if n < 1 { 1 } else if n > 3 { 3 } else { n };
    match levenshtein_capped(&qv, &cv, cap2) {
        Some(d) => Some(base + 4 + 2 * d),
        None => None,
    }
}

} // verus!

verus! {

/// Lexicographic order on character sequences by code point (the order of
/// `str` comparison, since UTF-8 preserves code-point order).
pub open spec fn chars_le(a: Seq<char>, b: Seq<char>) -> bool
    decreases a.len(),
{
    if a.len() == 0 {
        true
    } else if b.len() == 0 {
        false
    } else if (a[0] as int) < (b[0] as int) {
        true
    } else if (a[0] as int) > (b[0] as int) {
        false
    } else {
        chars_le(a.drop_first(), b.drop_first())
    }
}

/// Name order is code-point order on single characters, a name comes
/// before every name it is a prefix of, and names that agree up to a
/// position are ordered by their first difference.
pub proof fn lemma_chars_le_is_lexicographic(a: Seq<char>, b: Seq<char>, x: char, y: char)
    ensures
        chars_le(seq![x], seq![y]) <==> (x as int) <= (y as int),
        chars_le(a, a + b),
        chars_le(a.push(x), a.push(y)) <==> (x as int) <= (y as int),
    decreases a.len(),
{
    assert(seq![x].drop_first() =~= Seq::<char>::empty());
    assert(seq![y].drop_first() =~= Seq::<char>::empty());
    assert(chars_le(Seq::<char>::empty(), Seq::<char>::empty()));
    assert(seq![x][0] == x && seq![y][0] == y);
    if a.len() > 0 {
        lemma_chars_le_is_lexicographic(a.drop_first(), b, x, y);
        assert((a + b).drop_first() =~= a.drop_first() + b);
        assert(a.push(x).drop_first() =~= a.drop_first().push(x));
        assert(a.push(y).drop_first() =~= a.drop_first().push(y));
    } else {
        assert(a.push(x) =~= seq![x]);
        assert(a.push(y) =~= seq![y]);
    }
}

pub proof fn lemma_chars_le_total(a: Seq<char>, b: Seq<char>)
    ensures
        chars_le(a, b) || chars_le(b, a),
    decreases a.len(),
{
    if a.len() > 0 && b.len() > 0 && a[0] as int == b[0] as int {
        lemma_chars_le_total(a.drop_first(), b.drop_first());
    }
}

pub proof fn lemma_chars_le_antisym(a: Seq<char>, b: Seq<char>)
    requires
        chars_le(a, b),
        chars_le(b, a),
    ensures
        a == b,
    decreases a.len(),
{
    if a.len() > 0 && b.len() > 0 {
        lemma_chars_le_antisym(a.drop_first(), b.drop_first());
        assert(a[0] == b[0]);
        assert(a =~= seq![a[0]] + a.drop_first());
        assert(b =~= seq![b[0]] + b.drop_first());
    } else {
        assert(a =~= b);
    }
}

pub proof fn lemma_chars_le_trans(a: Seq<char>, b: Seq<char>, c: Seq<char>)
    requires
        chars_le(a, b),
        chars_le(b, c),
    ensures
        chars_le(a, c),
    decreases a.len(),
{
    if a.len() > 0 && b.len() > 0 && c.len() > 0 {
        if a[0] as int == b[0] as int && b[0] as int == c[0] as int {
            lemma_chars_le_trans(a.drop_first(), b.drop_first(), c.drop_first());
        }
    }
}

/// Ranking order: by score, then by name.
pub open spec fn key_le(x: (nat, Seq<char>), y: (nat, Seq<char>)) -> bool {
    x.0 < y.0 || (x.0 == y.0 && chars_le(x.1, y.1))
}

pub open spec fn sorted_by_key(s: Seq<(nat, Seq<char>)>) -> bool {
    forall|i: int, j: int| 0 <= i < j < s.len() ==> key_le(#[trigger] s[i], #[trigger] s[j])
}

/// The plausible candidates with their scores, in input order.
pub open spec fn scored(query: Seq<char>, cands: Seq<Seq<char>>) -> Seq<(nat, Seq<char>)>
    decreases cands.len(),
{
    if cands.len() == 0 {
        Seq::empty()
    } else {
        let rest = scored(query, cands.drop_last());
        match spec_score(query, cands.last()) {
            Some(s) => rest.push((s, cands.last())),
            None => rest,
        }
    }
}

/// `names` are the names of the first `max` entries of a ranking of `cands`
/// by score and then name.
pub open spec fn is_ranking(
    query: Seq<char>,
    cands: Seq<Seq<char>>,
    max: nat,
    names: Seq<Seq<char>>,
) -> bool {
    exists|s: Seq<(nat, Seq<char>)>|
        #![trigger s.to_multiset()]
        s.to_multiset() == scored(query, cands).to_multiset() && sorted_by_key(s) && names
            == s.take(if max <= s.len() { max as int } else { s.len() as int }).map_values(
            |p: (nat, Seq<char>)| p.1,
        )
}

/// Two rankings sorted by score and name that hold the same entries are the
/// same sequence.
proof fn lemma_sorted_by_key_unique(s1: Seq<(nat, Seq<char>)>, s2: Seq<(nat, Seq<char>)>)
    requires
        sorted_by_key(s1),
        sorted_by_key(s2),
        s1.to_multiset() == s2.to_multiset(),
    ensures
        s1 == s2,
    decreases s1.len(),
{
    broadcast use vstd::seq_lib::group_to_multiset_ensures;
    assert(s1.len() == s1.to_multiset().len());
    assert(s2.len() == s2.to_multiset().len());
    if s1.len() == 0 {
        assert(s1 =~= s2);
    } else {
        let a = s1[0];
        let b = s2[0];
        assert(s2.to_multiset().contains(b));
        assert(s1.contains(b));
        let j = choose|j: int| 0 <= j < s1.len() && s1[j] == b;
        lemma_chars_le_total(a.1, a.1);
        if j > 0 {
            assert(key_le(s1[0], s1[j]));
        }
        assert(key_le(a, b));
        assert(s1.to_multiset().contains(a));
        assert(s2.contains(a));
        let k = choose|k: int| 0 <= k < s2.len() && s2[k] == a;
        lemma_chars_le_total(b.1, b.1);
        if k > 0 {
            assert(key_le(s2[0], s2[k]));
        }
        assert(key_le(b, a));
        if a.0 == b.0 {
            lemma_chars_le_antisym(a.1, b.1);
        }
        assert(a == b);
        vstd::seq_lib::to_multiset_remove(s1, 0);
        vstd::seq_lib::to_multiset_remove(s2, 0);
        assert(s1.remove(0) =~= s1.drop_first());
        assert(s2.remove(0) =~= s2.drop_first());
        assert(sorted_by_key(s1.drop_first())) by {
            assert forall|i: int, j2: int| 0 <= i < j2 < s1.drop_first().len() implies key_le(
                #[trigger] s1.drop_first()[i],
                #[trigger] s1.drop_first()[j2],
            ) by {
                assert(key_le(s1[i + 1], s1[j2 + 1]));
            }
        }
        assert(sorted_by_key(s2.drop_first())) by {
            assert forall|i: int, j2: int| 0 <= i < j2 < s2.drop_first().len() implies key_le(
                #[trigger] s2.drop_first()[i],
                #[trigger] s2.drop_first()[j2],
            ) by {
                assert(key_le(s2[i + 1], s2[j2 + 1]));
            }
        }
        lemma_sorted_by_key_unique(s1.drop_first(), s2.drop_first());
        assert(s1 =~= s2) by {
            assert forall|i: int| 0 <= i < s1.len() implies s1[i] == s2[i] by {
                if i > 0 {
                    assert(s1[i] == s1.drop_first()[i - 1]);
                    assert(s2[i] == s2.drop_first()[i - 1]);
                }
            }
        }
    }
}

/// How often an entry is among the scored candidates: as often as its name
/// is among the candidates, when that is its score.
proof fn lemma_scored_count(query: Seq<char>, cands: Seq<Seq<char>>, p: (nat, Seq<char>))
    ensures
        scored(query, cands).to_multiset().count(p) == if spec_score(query, p.1) == Some(p.0) {
            cands.to_multiset().count(p.1)
        } else {
            0
        },
    decreases cands.len(),
{
    broadcast use vstd::seq_lib::group_to_multiset_ensures;
    if cands.len() == 0 {
    } else {
        lemma_scored_count(query, cands.drop_last(), p);
        assert(cands =~= cands.drop_last().push(cands.last()));
    }
}

/// What a ranking holds: at most `max` names, each a candidate with a
/// score; ordered by score and then by name; and no candidate with a score
/// is left out unless the ranking is full and every name in it comes before
/// that candidate.
pub proof fn lemma_ranking_order(query: Seq<char>, cands: Seq<Seq<char>>, max: nat, names: Seq<Seq<char>>)
    requires
        is_ranking(query, cands, max, names),
    ensures
        names.len() <= max,
        forall|i: int| 0 <= i < names.len() ==> cands.contains(#[trigger] names[i]) && spec_score(query, names[i]) is Some,
        forall|i: int, j: int|
            0 <= i < j < names.len() ==> spec_score(query, #[trigger] names[i])->0 < spec_score(query, #[trigger] names[j])->0
                || (spec_score(query, names[i])->0 == spec_score(query, names[j])->0 && chars_le(names[i], names[j])),
        forall|c: Seq<char>|
            #![trigger cands.contains(c), names.contains(c)]
            cands.contains(c) && spec_score(query, c) is Some && !names.contains(c) ==> names.len() == max && forall|i: int|
                0 <= i < names.len() ==> spec_score(query, #[trigger] names[i])->0 < spec_score(query, c)->0 || (
                spec_score(query, names[i])->0 == spec_score(query, c)->0 && chars_le(names[i], c)),
{
    broadcast use vstd::seq_lib::group_to_multiset_ensures;
    let s = choose|s: Seq<(nat, Seq<char>)>|
        #![trigger s.to_multiset()]
        s.to_multiset() == scored(query, cands).to_multiset() && sorted_by_key(s) && names == s.take(
            if max <= s.len() { max as int } else { s.len() as int },
        ).map_values(|p: (nat, Seq<char>)| p.1);
    let k: int = if max <= s.len() { max as int } else { s.len() as int };
    assert(names.len() == k);
    assert forall|i: int| 0 <= i < s.len() implies spec_score(query, (#[trigger] s[i]).1) == Some(s[i].0) && cands.contains(
        s[i].1,
    ) by {
        assert(s.to_multiset().count(s[i]) > 0);
        lemma_scored_count(query, cands, s[i]);
        assert(cands.to_multiset().count(s[i].1) > 0);
    }
    assert forall|i: int| 0 <= i < names.len() implies names[i] == (#[trigger] s[i]).1 by {}
    assert forall|c: Seq<char>|
        #![trigger cands.contains(c), names.contains(c)]
        cands.contains(c) && spec_score(query, c) is Some && !names.contains(c) implies names.len() == max && forall|i: int|
            0 <= i < names.len() ==> spec_score(query, #[trigger] names[i])->0 < spec_score(query, c)->0 || (
            spec_score(query, names[i])->0 == spec_score(query, c)->0 && chars_le(names[i], c)) by {
        let p = (spec_score(query, c)->0, c);
        lemma_scored_count(query, cands, p);
        assert(cands.to_multiset().count(c) > 0);
        assert(s.to_multiset().count(p) > 0);
        assert(s.contains(p));
        let m = choose|m: int| 0 <= m < s.len() && s[m] == p;
        if m < k {
            assert(names[m] == c);
            assert(names.contains(c));
        }
        assert forall|i: int| 0 <= i < names.len() implies spec_score(query, #[trigger] names[i])->0 < spec_score(query, c)->0 || (
            spec_score(query, names[i])->0 == spec_score(query, c)->0 && chars_le(names[i], c)) by {
            assert(names[i] == s[i].1);
            assert(key_le(s[i], s[m]));
        }
    }
    assert forall|i: int, j: int|
        0 <= i < j < names.len() implies spec_score(query, #[trigger] names[i])->0 < spec_score(query, #[trigger] names[j])->0
            || (spec_score(query, names[i])->0 == spec_score(query, names[j])->0 && chars_le(names[i], names[j])) by {
        assert(names[i] == s[i].1);
        assert(names[j] == s[j].1);
        assert(key_le(s[i], s[j]));
    }
}

/// The ranking does not depend on the order of the candidates.
pub proof fn lemma_rank_similar_order_free(
    query: Seq<char>,
    c1: Seq<Seq<char>>,
    c2: Seq<Seq<char>>,
    max: nat,
    n1: Seq<Seq<char>>,
    n2: Seq<Seq<char>>,
)
    requires
        c1.to_multiset() == c2.to_multiset(),
        is_ranking(query, c1, max, n1),
        is_ranking(query, c2, max, n2),
    ensures
        n1 == n2,
{
    let s1 = choose|s: Seq<(nat, Seq<char>)>|
        #![trigger s.to_multiset()]
        s.to_multiset() == scored(query, c1).to_multiset() && sorted_by_key(s) && n1 == s.take(
            if max <= s.len() { max as int } else { s.len() as int },
        ).map_values(|p: (nat, Seq<char>)| p.1);
    let s2 = choose|s: Seq<(nat, Seq<char>)>|
        #![trigger s.to_multiset()]
        s.to_multiset() == scored(query, c2).to_multiset() && sorted_by_key(s) && n2 == s.take(
            if max <= s.len() { max as int } else { s.len() as int },
        ).map_values(|p: (nat, Seq<char>)| p.1);
    assert(scored(query, c1).to_multiset() =~= scored(query, c2).to_multiset()) by {
        assert forall|p: (nat, Seq<char>)| #[trigger] scored(query, c1).to_multiset().count(p)
            == scored(query, c2).to_multiset().count(p) by {
            lemma_scored_count(query, c1, p);
            lemma_scored_count(query, c2, p);
        }
    }
    lemma_sorted_by_key_unique(s1, s2);
}

/// A smaller limit gives a prefix of the ranking a larger limit gives.
pub proof fn lemma_rank_similar_prefix(
    query: Seq<char>,
    cands: Seq<Seq<char>>,
    m1: nat,
    m2: nat,
    n1: Seq<Seq<char>>,
    n2: Seq<Seq<char>>,
)
    requires
        m1 <= m2,
        is_ranking(query, cands, m1, n1),
        is_ranking(query, cands, m2, n2),
    ensures
        n1.len() <= n2.len(),
        n1 == n2.take(n1.len() as int),
{
    let s1 = choose|s: Seq<(nat, Seq<char>)>|
        #![trigger s.to_multiset()]
        s.to_multiset() == scored(query, cands).to_multiset() && sorted_by_key(s) && n1 == s.take(
            if m1 <= s.len() { m1 as int } else { s.len() as int },
        ).map_values(|p: (nat, Seq<char>)| p.1);
    let s2 = choose|s: Seq<(nat, Seq<char>)>|
        #![trigger s.to_multiset()]
        s.to_multiset() == scored(query, cands).to_multiset() && sorted_by_key(s) && n2 == s.take(
            if m2 <= s.len() { m2 as int } else { s.len() as int },
        ).map_values(|p: (nat, Seq<char>)| p.1);
    lemma_sorted_by_key_unique(s1, s2);
    assert(n1 =~= n2.take(n1.len() as int));
}

pub open spec fn entry_view(e: (usize, Vec<char>)) -> (nat, Seq<char>) {
    (e.0 as nat, e.1@)
}

pub open spec fn entries_view(s: Seq<(usize, Vec<char>)>) -> Seq<(nat, Seq<char>)> {
    s.map_values(|p: (usize, Vec<char>)| entry_view(p))
}

pub fn chars_le_exec(a: &Vec<char>, b: &Vec<char>) -> (r: bool)
    ensures
        r == chars_le(a@, b@),
{
    let mut k: usize = 0;
    assert(a@.skip(0) =~= a@);
    assert(b@.skip(0) =~= b@);
    while k < a.len() && k < b.len()
        invariant
            k <= a.len(),
            k <= b.len(),
            chars_le(a@, b@) == chars_le(a@.skip(k as int), b@.skip(k as int)),
        decreases a.len() - k,
    {
        let x = a[k];
        let y = b[k];
        assert(a@.skip(k as int)[0] == a@[k as int]);
        assert(b@.skip(k as int)[0] == b@[k as int]);
        if x < y {
            return true;
        }
        if x > y {
            return false;
        }
        assert(a@.skip(k as int).drop_first() =~= a@.skip(k + 1));
        assert(b@.skip(k as int).drop_first() =~= b@.skip(k + 1));
        k = k + 1;
    }
    k == a.len()
}

fn key_le_exec(x: &(usize, Vec<char>), y: &(usize, Vec<char>)) -> (r: bool)
    ensures
        r == key_le(entry_view(*x), entry_view(*y)),
{
    x.0 < y.0 || (x.0 == y.0 && chars_le_exec(&x.1, &y.1))
}

/// Inserts `e` after every entry ranked at or before it.
fn insert_ranked(v: &mut Vec<(usize, Vec<char>)>, e: (usize, Vec<char>))
    requires
        sorted_by_key(entries_view(old(v)@)),
    ensures
        sorted_by_key(entries_view(final(v)@)),
        entries_view(final(v)@).to_multiset() == entries_view(old(v)@).to_multiset().insert(
            entry_view(e),
        ),
{
    let ghost ev = entry_view(e);
    let mut p: usize = 0;
    let mut done = false;
    while !done && p < v.len()
        invariant
            ev == entry_view(e),
            p <= v.len(),
            sorted_by_key(entries_view(v@)),
            forall|k: int| 0 <= k < p ==> key_le(#[trigger] entry_view(v@[k]), ev),
            done ==> p < v.len() && !key_le(entry_view(v@[p as int]), ev),
        decreases v.len() - p + if done { 0int } else { 1int },
    {
        let cur = &v[p];
        assert(*cur == v@[p as int]);
        if key_le_exec(cur, &e) {
            p = p + 1;
        } else {
            done = true;
        }
    }
    let ghost before = entries_view(v@);
    v.insert(p, e);
    proof {
        let after = entries_view(v@);
        assert(after =~= before.insert(p as int, ev));
        vstd::seq_lib::to_multiset_insert(before, p as int, ev);
        assert forall|i: int, j: int| 0 <= i < j < after.len() implies key_le(
            #[trigger] after[i],
            #[trigger] after[j],
        ) by {
            if p < before.len() {
                assert(before[p as int] == entry_view(v@[p + 1]));
                assert(!key_le(before[p as int], ev));
                if before[p as int].0 == ev.0 {
                    lemma_chars_le_total(before[p as int].1, ev.1);
                }
            }
            if i < p && j == p {
                assert(before[i] == after[i]);
                assert(key_le(before[i], ev));
            } else if i == p && j > p {
                assert(after[j] == before[j - 1]);
                if j - 1 > p {
                    assert(key_le(before[p as int], before[j - 1]));
                    if ev.0 == before[p as int].0 && before[p as int].0 == before[j - 1].0 {
                        lemma_chars_le_trans(ev.1, before[p as int].1, before[j - 1].1);
                    }
                }
            } else if i < p && j > p {
                assert(after[j] == before[j - 1]);
                assert(key_le(before[i], before[j - 1]));
            } else if i > p {
                assert(after[i] == before[i - 1]);
                assert(after[j] == before[j - 1]);
                assert(key_le(before[i - 1], before[j - 1]));
            } else {
                assert(after[i] == before[i]);
                assert(after[j] == before[j]);
            }
        }
    }
}

/// Ranks `candidates` by similarity to `query`, returning at most `max`
/// names, best first. Ties break lexicographically, so the output is
/// deterministic.
pub fn rank_similar(query: &str, candidates: &[&str], max: usize) -> (r: Vec<String>)
    requires
        query@.len() < usize::MAX,
        forall|i: int| 0 <= i < candidates@.len() ==> (#[trigger] candidates@[i])@.len()
            < usize::MAX,
    ensures
        is_ranking(
            query@,
            candidates@.map_values(|c: &str| c@),
            max as nat,
            r@.map_values(|s: String| s@),
        ),
{
    let ghost cs = candidates@.map_values(|c: &str| c@);
    let mut ranked: Vec<(usize, Vec<char>)> = Vec::new();
    proof {
        assert(cs.take(0) =~= Seq::<Seq<char>>::empty());
        assert(entries_view(ranked@) =~= Seq::<(nat, Seq<char>)>::empty());
    }
    let mut i: usize = 0;
    while i < candidates.len()
        invariant
            cs == candidates@.map_values(|c: &str| c@),
            query@.len() < usize::MAX,
            forall|k: int| 0 <= k < candidates@.len() ==> (#[trigger] candidates@[k])@.len()
                < usize::MAX,
            i <= candidates.len(),
            sorted_by_key(entries_view(ranked@)),
            entries_view(ranked@).to_multiset() == scored(query@, cs.take(i as int)).to_multiset(),
        decreases candidates.len() - i,
    {
        let c = candidates[i];
        proof {
            assert(cs.take(i + 1).drop_last() =~= cs.take(i as int));
            assert(cs.take(i + 1).last() == c@);
        }
        match score(query, c) {
            Some(s) => {
                let e = (s, chars_of(c));
                insert_ranked(&mut ranked, e);
                proof {
                    vstd::seq_lib::to_multiset_build(scored(query@, cs.take(i as int)), (s as nat, c@));
                }
            },
            None => {},
        }
        i = i + 1;
    }
    proof {
        assert(cs.take(candidates.len() as int) =~= cs);
    }
    let n = if max <= ranked.len() { max } else { ranked.len() };
    let mut out: Vec<String> = Vec::new();
    let mut k: usize = 0;
    while k < n
        invariant
            n <= ranked.len(),
            k <= n,
            out@.len() == k,
            forall|j: int| 0 <= j < k ==> (#[trigger] out@[j])@ == ranked@[j].1@,
        decreases n - k,
    {
        out.push(string_of(&ranked[k].1));
        k = k + 1;
    }
    proof {
        let s = entries_view(ranked@);
        assert(out@.map_values(|x: String| x@) =~= s.take(n as int).map_values(
            |p: (nat, Seq<char>)| p.1,
        ));
    }
    out
}

} // verus!

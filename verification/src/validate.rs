//! Validation of module ids, symbols, local names and type names.

use vstd::prelude::*;
use crate::text::{concat_str, chars_contain, chars_of, debug_str, spec_debug_str, string_of, trim_seq, trim_str};

verus! {

pub open spec fn is_ascii_alpha(c: char) -> bool {
    ('A' <= c && c <= 'Z') || ('a' <= c && c <= 'z')
}

pub open spec fn is_ascii_alnum(c: char) -> bool {
    is_ascii_alpha(c) || ('0' <= c && c <= '9')
}

/// `s` split at every `.` (`str::split('.')`): always at least one segment.
pub open spec fn split_dot(s: Seq<char>) -> Seq<Seq<char>>
    decreases s.len(),
{
    if s.len() == 0 {
        seq![Seq::empty()]
    } else {
        let init = split_dot(s.drop_last());
        if s.last() == '.' {
            init.push(Seq::empty())
        } else {
            init.update(init.len() - 1, init.last().push(s.last()))
        }
    }
}

pub proof fn lemma_split_dot_nonempty(s: Seq<char>)
    ensures
        split_dot(s).len() >= 1,
    decreases s.len(),
{
    if s.len() > 0 {
        lemma_split_dot_nonempty(s.drop_last());
    }
}

/// `segs` joined with `.` between neighbours.
pub open spec fn join_dot(segs: Seq<Seq<char>>) -> Seq<char>
    decreases segs.len(),
{
    if segs.len() <= 1 {
        if segs.len() == 1 {
            segs[0]
        } else {
            Seq::empty()
        }
    } else {
        join_dot(segs.drop_last()) + seq!['.'] + segs.last()
    }
}

/// Splitting at dots loses nothing: no segment holds a dot, and joining the
/// segments with dots gives back `s`.
pub proof fn lemma_split_dot_joins_back(s: Seq<char>)
    ensures
        split_dot(s).len() >= 1,
        join_dot(split_dot(s)) == s,
        forall|i: int| 0 <= i < split_dot(s).len() ==> !(#[trigger] split_dot(s)[i]).contains('.'),
    decreases s.len(),
{
    if s.len() > 0 {
        let t = s.drop_last();
        lemma_split_dot_joins_back(t);
        let init = split_dot(t);
        if s.last() == '.' {
            let r = init.push(Seq::<char>::empty());
            assert(r.drop_last() =~= init);
            assert(join_dot(r) =~= join_dot(init) + seq!['.'] + Seq::<char>::empty());
            assert(s =~= t + seq!['.']);
            assert forall|i: int| 0 <= i < r.len() implies !(#[trigger] r[i]).contains('.') by {
                if i < init.len() {
                    assert(r[i] == init[i]);
                }
            }
        } else {
            let l = init.last().push(s.last());
            let r = init.update(init.len() - 1, l);
            assert forall|i: int| 0 <= i < r.len() implies !(#[trigger] r[i]).contains('.') by {
                if i < init.len() - 1 {
                    assert(r[i] == init[i]);
                } else {
                    assert(!init[init.len() - 1].contains('.'));
                    if l.contains('.') {
                        let k = choose|k: int| 0 <= k < l.len() && l[k] == '.';
                        if k < init.last().len() {
                            assert(init.last()[k] == '.');
                        }
                    }
                }
            }
            if init.len() == 1 {
                assert(r =~= seq![l]);
                assert(join_dot(init) == init[0]);
                assert(s =~= t.push(s.last()));
            } else {
                assert(r.drop_last() =~= init.drop_last());
                assert(join_dot(init) == join_dot(init.drop_last()) + seq!['.'] + init.last());
                assert(join_dot(r) == join_dot(init.drop_last()) + seq!['.'] + l);
                assert(join_dot(r) =~= join_dot(init).push(s.last()));
                assert(s =~= t.push(s.last()));
            }
        }
    }
}

/// `{:?}` of a string.
pub open spec fn dbg(s: Seq<char>) -> Seq<char> {
    spec_debug_str(s)
}

/// The complaint about one segment of module id `id`, if any.
pub open spec fn segment_error(id: Seq<char>, seg: Seq<char>) -> Option<Seq<char>> {
    if seg.len() == 0 {
        Some("invalid module_id (empty segment): "@ + dbg(id))
    } else if seg == seq!['.'] || seg == seq!['.', '.'] {
        Some("invalid module_id (dot segments are not allowed): "@ + dbg(id))
    } else if !(is_ascii_alpha(seg[0]) || seg[0] == '_') {
        Some("invalid module_id segment start (must be [A-Za-z_]): "@ + dbg(id) + " segment="@ + dbg(seg))
    } else if exists|k: int|
        1 <= k < seg.len() && !(is_ascii_alnum(#[trigger] seg[k]) || seg[k] == '_' || seg[k] == '-') {
        Some("invalid module_id segment char (allowed [A-Za-z0-9_-]): "@ + dbg(id) + " segment="@ + dbg(seg))
    } else {
        None
    }
}

/// The complaint about the first bad segment, if any.
pub open spec fn segments_error(id: Seq<char>, segs: Seq<Seq<char>>) -> Option<Seq<char>>
    decreases segs.len(),
{
    if segs.len() == 0 {
        None
    } else {
        match segment_error(id, segs[0]) {
            Some(m) => Some(m),
            None => segments_error(id, segs.drop_first()),
        }
    }
}

/// Why `raw` (once trimmed) is not a valid module id, if it is not one.
pub open spec fn module_id_error(raw: Seq<char>) -> Option<Seq<char>> {
    let id = trim_seq(raw);
    if id.len() == 0 {
        Some("module_id must not be empty"@)
    } else if id.contains('/') || id.contains('\\') {
        Some("invalid module_id (path separators are not allowed): "@ + dbg(id))
    } else {
        segments_error(id, split_dot(id))
    }
}

/// Why `raw` (once trimmed) is not a valid local name, if it is not one.
pub open spec fn local_name_error(raw: Seq<char>) -> Option<Seq<char>> {
    let name = trim_seq(raw);
    if name.len() == 0 {
        Some("local name must be non-empty"@)
    } else if !(is_ascii_alpha(name[0]) || name[0] == '_') {
        Some("invalid local name start (must be [A-Za-z_]): "@ + dbg(name))
    } else if exists|k: int| 1 <= k < name.len() && !(is_ascii_alnum(#[trigger] name[k]) || name[k] == '_') {
        Some("invalid local name char (allowed [A-Za-z0-9_]): "@ + dbg(name))
    } else {
        None
    }
}

/// Why `raw` (once trimmed) is not a valid type name, if it is not one.
pub open spec fn type_name_error(raw: Seq<char>) -> Option<Seq<char>> {
    let name = trim_seq(raw);
    if name.len() == 0 {
        Some("type name must be non-empty"@)
    } else if !is_ascii_alpha(name[0]) {
        Some("invalid type name start (must be [A-Za-z]): "@ + dbg(name))
    } else if exists|k: int| 1 <= k < name.len() && !(is_ascii_alnum(#[trigger] name[k]) || name[k] == '_') {
        Some("invalid type name char (allowed [A-Za-z0-9_]): "@ + dbg(name))
    } else {
        None
    }
}

/// A type name is accepted exactly when, once trimmed, it is non-empty,
/// starts with an ASCII letter and goes on with ASCII letters, digits and
/// underscores: a name starting with a digit or `_` is refused.
pub proof fn lemma_type_name_accepted_chars(raw: Seq<char>)
    ensures
        type_name_error(raw) is None <==> ({
            let n = trim_seq(raw);
            &&& n.len() > 0
            &&& ('A' <= n[0] && n[0] <= 'Z') || ('a' <= n[0] && n[0] <= 'z')
            &&& forall|k: int|
                1 <= k < n.len() ==> ('A' <= #[trigger] n[k] && n[k] <= 'Z') || ('a' <= n[k] && n[k] <= 'z') || (
                '0' <= n[k] && n[k] <= '9') || n[k] == '_'
        }),
{
}

/// A local name is accepted exactly when, once trimmed, it is non-empty,
/// starts with an ASCII letter or `_` and goes on with ASCII letters, digits
/// and underscores.
pub proof fn lemma_local_name_accepted_chars(raw: Seq<char>)
    ensures
        local_name_error(raw) is None <==> ({
            let n = trim_seq(raw);
            &&& n.len() > 0
            &&& ('A' <= n[0] && n[0] <= 'Z') || ('a' <= n[0] && n[0] <= 'z') || n[0] == '_'
            &&& forall|k: int|
                1 <= k < n.len() ==> ('A' <= #[trigger] n[k] && n[k] <= 'Z') || ('a' <= n[k] && n[k] <= 'z') || (
                '0' <= n[k] && n[k] <= '9') || n[k] == '_'
        }),
{
}

/// `c` may start a module-id segment: an ASCII letter or `_`.
pub open spec fn starts_segment(c: char) -> bool {
    ('A' <= c && c <= 'Z') || ('a' <= c && c <= 'z') || c == '_'
}

/// `c` may continue a module-id segment: an ASCII letter or digit, `_` or `-`.
pub open spec fn continues_segment(c: char) -> bool {
    ('A' <= c && c <= 'Z') || ('a' <= c && c <= 'z') || ('0' <= c && c <= '9') || c == '_' || c == '-'
}

proof fn lemma_segments_error_none(id: Seq<char>, segs: Seq<Seq<char>>)
    ensures
        segments_error(id, segs) is None <==> forall|i: int| 0 <= i < segs.len() ==> segment_error(id, #[trigger] segs[i]) is None,
    decreases segs.len(),
{
    if segs.len() > 0 {
        lemma_segments_error_none(id, segs.drop_first());
        if segment_error(id, segs[0]) is None {
            assert forall|i: int| 0 <= i < segs.len() && (forall|j: int| 0 <= j < segs.drop_first().len() ==> segment_error(id, #[trigger] segs.drop_first()[j]) is None) implies segment_error(id, #[trigger] segs[i]) is None by {
                if i > 0 {
                    assert(segs[i] == segs.drop_first()[i - 1]);
                }
            }
            assert forall|j: int| 0 <= j < segs.drop_first().len() && (forall|i: int| 0 <= i < segs.len() ==> segment_error(id, #[trigger] segs[i]) is None) implies segment_error(id, #[trigger] segs.drop_first()[j]) is None by {
                assert(segs.drop_first()[j] == segs[j + 1]);
            }
        }
    }
}

/// A module id is accepted exactly when, once trimmed, it is non-empty,
/// holds no path separator, and every `.`-separated segment is non-empty,
/// not `.` or `..`, starts with an ASCII letter or `_` and goes on with
/// ASCII letters, digits, `_` and `-`: a segment starting with a digit is
/// refused.
pub proof fn lemma_module_id_accepted_chars(raw: Seq<char>)
    ensures
        module_id_error(raw) is None <==> ({
            let id = trim_seq(raw);
            let segs = split_dot(id);
            &&& id.len() > 0
            &&& !id.contains('/') && !id.contains('\\')
            &&& forall|i: int|
                0 <= i < segs.len() ==> {
                    let seg = #[trigger] segs[i];
                    &&& seg.len() > 0
                    &&& seg != seq!['.'] && seg != seq!['.', '.']
                    &&& starts_segment(seg[0])
                    &&& forall|k: int| 1 <= k < seg.len() ==> continues_segment(#[trigger] seg[k])
                }
        }),
{
    let id = trim_seq(raw);
    lemma_segments_error_none(id, split_dot(id));
}

/// The validation result for a complaint.
pub open spec fn result_of(err: Option<Seq<char>>, r: Result<(), String>) -> bool {
    match err {
        None => r is Ok,
        Some(m) => r matches Err(e) && e@ == m,
    }
}

fn ascii_alpha(c: char) -> (r: bool)
    ensures
        r == is_ascii_alpha(c),
{
    ('A' <= c && c <= 'Z') || ('a' <= c && c <= 'z')
}

fn ascii_alnum(c: char) -> (r: bool)
    ensures
        r == is_ascii_alnum(c),
{
    ascii_alpha(c) || ('0' <= c && c <= '9')
}

/// `"{text}{dbg(subject)}"`.
fn msg_with(text: &str, subject: &str) -> (r: String)
    ensures
        r@ == text@ + dbg(subject@),
{
    let d = debug_str(subject);
    concat_str(text, d.as_str())
}

fn check_segment(id: &str, seg: &Vec<char>) -> (r: Option<String>)
    ensures
        match r {
            Some(m) => segment_error(id@, seg@) == Some(m@),
            None => segment_error(id@, seg@) is None,
        },
{
    if seg.len() == 0 {
        return Some(msg_with("invalid module_id (empty segment): ", id));
    }
    if (seg.len() == 1 && seg[0] == '.') || (seg.len() == 2 && seg[0] == '.' && seg[1] == '.') {
        proof {
            if seg.len() == 1 {
                assert(seg@ =~= seq!['.']);
            } else {
                assert(seg@ =~= seq!['.', '.']);
            }
        }
        return Some(msg_with("invalid module_id (dot segments are not allowed): ", id));
    }
    proof {
        assert(seg@ != seq!['.'] && seg@ != seq!['.', '.']) by {
            if seg@ == seq!['.'] {
                assert(seg@.len() == 1 && seg@[0] == '.');
            }
            if seg@ == seq!['.', '.'] {
                assert(seg@.len() == 2 && seg@[0] == '.' && seg@[1] == '.');
            }
        }
    }
    let first = seg[0];
    let seg_s = string_of(seg);
    if !(ascii_alpha(first) || first == '_') {
        let head = msg_with("invalid module_id segment start (must be [A-Za-z_]): ", id);
        let tail = msg_with(" segment=", seg_s.as_str());
        return Some(concat_str(head.as_str(), tail.as_str()));
    }
    let mut k: usize = 1;
    while k < seg.len()
        invariant
            seg_s@ == seg@,
            seg@.len() >= 1,
            is_ascii_alpha(seg@[0]) || seg@[0] == '_',
            seg@ != seq!['.'] && seg@ != seq!['.', '.'],
            1 <= k <= seg.len(),
            forall|j: int| 1 <= j < k ==> (is_ascii_alnum(#[trigger] seg@[j]) || seg@[j] == '_' || seg@[j]
                == '-'),
        decreases seg.len() - k,
    {
        let c = seg[k];
        if !(ascii_alnum(c) || c == '_' || c == '-') {
            let head = msg_with("invalid module_id segment char (allowed [A-Za-z0-9_-]): ", id);
            let tail = msg_with(" segment=", seg_s.as_str());
            let m = concat_str(head.as_str(), tail.as_str());
            assert(!(is_ascii_alnum(seg@[k as int]) || seg@[k as int] == '_' || seg@[k as int] == '-'));
            assert(m@ =~= "invalid module_id segment char (allowed [A-Za-z0-9_-]): "@ + dbg(id@) + " segment="@ + dbg(seg@));
            return Some(m);
        }
        k = k + 1;
    }
    None
}

pub fn validate_module_id(module_id: &str) -> (r: Result<(), String>)
    ensures
        result_of(module_id_error(module_id@), r),
{
    let id = trim_str(module_id);
    let v = chars_of(id);
    if v.len() == 0 {
        return Err("module_id must not be empty".to_string());
    }
    if chars_contain(&v, '/') || chars_contain(&v, '\\') {
        return Err(msg_with("invalid module_id (path separators are not allowed): ", id));
    }
    let mut done: Vec<Vec<char>> = Vec::new();
    let mut cur: Vec<char> = Vec::new();
    let mut i: usize = 0;
    while i < v.len()
        invariant
            i <= v.len(),
            split_dot(v@.take(i as int)) == done@.map_values(|s: Vec<char>| s@).push(cur@),
        decreases v.len() - i,
    {
        let c = v[i];
        proof {
            assert(v@.take(i + 1).drop_last() =~= v@.take(i as int));
            assert(v@.take(i + 1).last() == c);
        }
        if c == '.' {
            let finished = cur;
            cur = Vec::new();
            done.push(finished);
            assert(split_dot(v@.take(i + 1)) =~= done@.map_values(|s: Vec<char>| s@).push(cur@));
        } else {
            let ghost before = cur@;
            cur.push(c);
            assert(split_dot(v@.take(i + 1)) =~= done@.map_values(|s: Vec<char>| s@).push(cur@));
        }
        i = i + 1;
    }
    done.push(cur);
    let ghost segs = done@.map_values(|s: Vec<char>| s@);
    proof {
        assert(v@.take(v.len() as int) =~= v@);
    }
    let mut j: usize = 0;
    assert(segs.skip(0) =~= segs);
    while j < done.len()
        invariant
            id@ == trim_seq(module_id@),
            v@ == id@,
            v@.len() > 0,
            !v@.contains('/') && !v@.contains('\\'),
            segs == done@.map_values(|s: Vec<char>| s@),
            segs == split_dot(id@),
            j <= done.len(),
            segments_error(id@, segs) == segments_error(id@, segs.skip(j as int)),
        decreases done.len() - j,
    {
        proof {
            assert(segs.skip(j as int)[0] == done@[j as int]@);
            assert(segs.skip(j as int).drop_first() =~= segs.skip(j + 1));
        }
        match check_segment(id, &done[j]) {
            Some(m) => {
                return Err(m);
            },
            None => {},
        }
        j = j + 1;
    }
    proof {
        assert(segs.skip(j as int) =~= Seq::<Seq<char>>::empty());
    }
    Ok(())
}

pub fn validate_symbol(sym: &str) -> (r: Result<(), String>)
    ensures
        result_of(module_id_error(sym@), r),
{
    validate_module_id(sym)
}

pub fn validate_local_name(name: &str) -> (r: Result<(), String>)
    ensures
        result_of(local_name_error(name@), r),
{
    let t = trim_str(name);
    let v = chars_of(t);
    if v.len() == 0 {
        return Err("local name must be non-empty".to_string());
    }
    let first = v[0];
    if !(ascii_alpha(first) || first == '_') {
        return Err(msg_with("invalid local name start (must be [A-Za-z_]): ", t));
    }
    let mut k: usize = 1;
    while k < v.len()
        invariant
            t@ == trim_seq(name@),
            v@ == t@,
            v@.len() >= 1,
            is_ascii_alpha(v@[0]) || v@[0] == '_',
            1 <= k <= v.len(),
            forall|j: int| 1 <= j < k ==> (is_ascii_alnum(#[trigger] v@[j]) || v@[j] == '_'),
        decreases v.len() - k,
    {
        let c = v[k];
        if !(ascii_alnum(c) || c == '_') {
            assert(!(is_ascii_alnum(v@[k as int]) || v@[k as int] == '_'));
            return Err(msg_with("invalid local name char (allowed [A-Za-z0-9_]): ", t));
        }
        k = k + 1;
    }
    Ok(())
}

pub fn validate_type_name(name: &str) -> (r: Result<(), String>)
    ensures
        result_of(type_name_error(name@), r),
{
    let t = trim_str(name);
    let v = chars_of(t);
    if v.len() == 0 {
        return Err("type name must be non-empty".to_string());
    }
    let first = v[0];
    if !ascii_alpha(first) {
        return Err(msg_with("invalid type name start (must be [A-Za-z]): ", t));
    }
    let mut k: usize = 1;
    while k < v.len()
        invariant
            t@ == trim_seq(name@),
            v@ == t@,
            v@.len() >= 1,
            is_ascii_alpha(v@[0]),
            1 <= k <= v.len(),
            forall|j: int| 1 <= j < k ==> (is_ascii_alnum(#[trigger] v@[j]) || v@[j] == '_'),
        decreases v.len() - k,
    {
        let c = v[k];
        if !(ascii_alnum(c) || c == '_') {
            assert(!(is_ascii_alnum(v@[k as int]) || v@[k as int] == '_'));
            return Err(msg_with("invalid type name char (allowed [A-Za-z0-9_]): ", t));
        }
        k = k + 1;
    }
    Ok(())
}

} // verus!

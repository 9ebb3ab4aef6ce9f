//! What the pipe elaborator reads about modules: the brand registry a
//! module declares in its metadata (`meta.brands_v1`), and the module a
//! function belongs to.

use vstd::prelude::*;
use crate::compile::{CompileErrorKind, CompilerError};
use crate::pipe_brands::reg_view;
use crate::text::{chars_of, concat_str, debug_str, push_char, spec_debug_str, str_eq};
use crate::validate::{module_id_error, validate_symbol};

verus! {

/// What `meta.brands_v1[brand]` holds, as far as the registry reads it: not
/// an object, an object without `validate`, a `validate` that is not a
/// string, or the validator's name.
#[derive(Debug, PartialEq, Eq)]
pub enum BrandMetaEntryV1 {
    NotObject,
    MissingValidate,
    ValidateNotString,
    Validate(String),
}

pub enum BrandMetaEntryV {
    NotObject,
    MissingValidate,
    ValidateNotString,
    Validate(Seq<char>),
}

impl View for BrandMetaEntryV1 {
    type V = BrandMetaEntryV;

    open spec fn view(&self) -> BrandMetaEntryV {
        match self {
            BrandMetaEntryV1::NotObject => BrandMetaEntryV::NotObject,
            BrandMetaEntryV1::MissingValidate => BrandMetaEntryV::MissingValidate,
            BrandMetaEntryV1::ValidateNotString => BrandMetaEntryV::ValidateNotString,
            BrandMetaEntryV1::Validate(v) => BrandMetaEntryV::Validate(v@),
        }
    }
}

/// A module's `meta.brands_v1`: absent, not an object, or its entries in
/// the order the object lists them.
#[derive(Debug, PartialEq, Eq)]
pub enum BrandsMetaV1 {
    Absent,
    NotObject,
    Entries(Vec<(String, BrandMetaEntryV1)>),
}

pub open spec fn entries_view(v: Seq<(String, BrandMetaEntryV1)>) -> Seq<(Seq<char>, BrandMetaEntryV)> {
    Seq::new(v.len(), |i: int| (v[i].0@, v[i].1@))
}

/// The complaint about one entry of `meta.brands_v1`, checked in order:
/// the brand id, the entry's shape, then the validator's name.
pub open spec fn brand_entry_error(id: Seq<char>, e: BrandMetaEntryV) -> Option<Seq<char>> {
    match module_id_error(id) {
        Some(m) => Some(m),
        None => match e {
            BrandMetaEntryV::NotObject => Some("meta.brands_v1["@ + spec_debug_str(id) + "] must be an object"@),
            BrandMetaEntryV::MissingValidate => Some("meta.brands_v1["@ + spec_debug_str(id) + "] missing validate"@),
            BrandMetaEntryV::ValidateNotString => Some(
                "meta.brands_v1["@ + spec_debug_str(id) + "].validate must be a string"@,
            ),
            BrandMetaEntryV::Validate(v) => module_id_error(v),
        },
    }
}

pub open spec fn reg_has(reg: Seq<(Seq<char>, Seq<char>)>, id: Seq<char>) -> bool {
    exists|i: int| 0 <= i < reg.len() && #[trigger] reg[i].0 == id
}

/// The registry built from the first `n` entries, or the first error:
/// an invalid entry or a brand listed twice.
pub open spec fn brands_upto(entries: Seq<(Seq<char>, BrandMetaEntryV)>, n: int) -> Result<
    Seq<(Seq<char>, Seq<char>)>,
    Seq<char>,
>
    decreases n,
{
    if n <= 0 {
        Ok(Seq::empty())
    } else {
        match brands_upto(entries, n - 1) {
            Err(m) => Err(m),
            Ok(reg) => {
                let (id, e) = entries[n - 1];
                match brand_entry_error(id, e) {
                    Some(m) => Err(m),
                    None => if reg_has(reg, id) {
                        Err("meta.brands_v1 duplicate entry for "@ + spec_debug_str(id))
                    } else {
                        Ok(reg.push((id, e->Validate_0)))
                    },
                }
            },
        }
    }
}

/// The registry `meta.brands_v1` declares: empty when absent.
pub open spec fn brands_registry(meta: BrandsMetaV1) -> Result<Seq<(Seq<char>, Seq<char>)>, Seq<char>> {
    match meta {
        BrandsMetaV1::Absent => Ok(Seq::empty()),
        BrandsMetaV1::NotObject => Err("meta.brands_v1 must be a JSON object"@),
        BrandsMetaV1::Entries(v) => brands_upto(entries_view(v@), v@.len() as int),
    }
}

pub open spec fn typing_result(r: Result<Vec<(String, String)>, CompilerError>, s: Result<Seq<(Seq<char>, Seq<char>)>, Seq<char>>) -> bool {
    match s {
        Ok(reg) => r matches Ok(v) && reg_view(v@) == reg,
        Err(m) => r matches Err(e) && e.kind == CompileErrorKind::Typing && e.message@ == m && e.diagnostic is None,
    }
}

fn typing(m: String) -> (e: CompilerError)
    ensures
        e.kind == CompileErrorKind::Typing && e.message@ == m@ && e.diagnostic is None,
{
    CompilerError::new(CompileErrorKind::Typing, m)
}

fn entry_msg(id: &str, tail: &str) -> (r: String)
    ensures
        r@ == "meta.brands_v1["@ + spec_debug_str(id@) + tail@,
{
    let m = concat_str("meta.brands_v1[", debug_str(id).as_str());
    concat_str(m.as_str(), tail)
}

fn copy_str(s: &String) -> (r: String)
    ensures
        r@ == s@,
{
    s.as_str().to_string()
}

/// Reads the brand registry of a module's `meta.brands_v1`: each brand id
/// and validator must be a valid symbol, each entry an object with a string
/// `validate`, and no brand may be listed twice.
pub fn load_brand_registry_v1_from_meta_v1(meta: &BrandsMetaV1) -> (r: Result<Vec<(String, String)>, CompilerError>)
    ensures
        typing_result(r, brands_registry(*meta)),
{
    let entries = match meta {
        BrandsMetaV1::Absent => {
            let out: Vec<(String, String)> = Vec::new();
            assert(reg_view(out@) =~= Seq::<(Seq<char>, Seq<char>)>::empty());
            return Ok(out);
        },
        BrandsMetaV1::NotObject => {
            return Err(typing("meta.brands_v1 must be a JSON object".to_string()));
        },
        BrandsMetaV1::Entries(v) => v,
    };
    let ghost ev = entries_view(entries@);
    let mut out: Vec<(String, String)> = Vec::new();
    assert(reg_view(out@) =~= Seq::<(Seq<char>, Seq<char>)>::empty());
    let mut i: usize = 0;
    while i < entries.len()
        invariant
            i <= entries@.len(),
            ev == entries_view(entries@),
            brands_registry(*meta) == brands_upto(ev, ev.len() as int),
            brands_upto(ev, i as int) == Ok::<Seq<(Seq<char>, Seq<char>)>, Seq<char>>(reg_view(out@)),
        decreases entries.len() - i,
    {
        let (id, e) = (&entries[i].0, &entries[i].1);
        assert(ev[i as int] == (id@, e@));
        let ghost reg = reg_view(out@);
        if let Err(m) = validate_symbol(id.as_str()) {
            proof {
                lemma_brands_stop(ev, i as int + 1, ev.len() as int);
            }
            return Err(typing(m));
        }
        let v = match e {
            BrandMetaEntryV1::NotObject => {
                proof {
                    lemma_brands_stop(ev, i as int + 1, ev.len() as int);
                }
                return Err(typing(entry_msg(id.as_str(), "] must be an object")));
            },
            BrandMetaEntryV1::MissingValidate => {
                proof {
                    lemma_brands_stop(ev, i as int + 1, ev.len() as int);
                }
                return Err(typing(entry_msg(id.as_str(), "] missing validate")));
            },
            BrandMetaEntryV1::ValidateNotString => {
                proof {
                    lemma_brands_stop(ev, i as int + 1, ev.len() as int);
                }
                return Err(typing(entry_msg(id.as_str(), "].validate must be a string")));
            },
            BrandMetaEntryV1::Validate(v) => v,
        };
        if let Err(m) = validate_symbol(v.as_str()) {
            proof {
                lemma_brands_stop(ev, i as int + 1, ev.len() as int);
            }
            return Err(typing(m));
        }
        let mut k: usize = 0;
        while k < out.len()
            invariant
                i < entries@.len(),
                ev == entries_view(entries@),
                brands_registry(*meta) == brands_upto(ev, ev.len() as int),
                ev[i as int] == (id@, e@),
                brands_upto(ev, i as int) == Ok::<Seq<(Seq<char>, Seq<char>)>, Seq<char>>(reg),
                brand_entry_error(id@, e@) is None,
                e@ == BrandMetaEntryV::Validate(v@),
                k <= out@.len(),
                reg == reg_view(out@),
                forall|j: int| 0 <= j < k ==> reg[j].0 != id@,
            decreases out.len() - k,
        {
            if str_eq(out[k].0.as_str(), id.as_str()) {
                assert(reg[k as int].0 == id@);
                proof {
                    lemma_brands_stop(ev, i as int + 1, ev.len() as int);
                }
                return Err(typing(concat_str("meta.brands_v1 duplicate entry for ", debug_str(id.as_str()).as_str())));
            }
            k = k + 1;
        }
        out.push((copy_str(id), copy_str(v)));
        proof {
            assert(reg_view(out@) =~= reg.push((id@, v@)));
        }
        i = i + 1;
    }
    Ok(out)
}

proof fn lemma_brands_stop(entries: Seq<(Seq<char>, BrandMetaEntryV)>, m: int, n: int)
    requires
        0 <= m <= n,
        brands_upto(entries, m) is Err,
    ensures
        brands_upto(entries, n) == brands_upto(entries, m),
    decreases n - m,
{
    if n > m {
        lemma_brands_stop(entries, m, n - 1);
    }
}

pub open spec fn metas_view(v: Seq<(String, BrandsMetaV1)>) -> Seq<Seq<char>> {
    Seq::new(v.len(), |i: int| v[i].0@)
}

fn find_module<'a>(module_metas: &'a Vec<(String, BrandsMetaV1)>, module_id: &str) -> (r: Option<&'a BrandsMetaV1>)
    ensures
        match r {
            Some(m) => exists|i: int|
                0 <= i < module_metas@.len() && module_metas@[i].0@ == module_id@ && module_metas@[i].1 == *m
                    && forall|j: int| 0 <= j < i ==> module_metas@[j].0@ != module_id@,
            None => !metas_view(module_metas@).contains(module_id@),
        },
{
    let mut i: usize = 0;
    while i < module_metas.len()
        invariant
            i <= module_metas@.len(),
            forall|j: int| 0 <= j < i ==> module_metas@[j].0@ != module_id@,
        decreases module_metas.len() - i,
    {
        if str_eq(module_metas[i].0.as_str(), module_id) {
            return Some(&module_metas[i].1);
        }
        i = i + 1;
    }
    proof {
        if metas_view(module_metas@).contains(module_id@) {
            let k = choose|k: int| 0 <= k < metas_view(module_metas@).len() && metas_view(module_metas@)[k] == module_id@;
            assert(module_metas@[k].0@ == module_id@);
        }
    }
    None
}

/// The brands meta of the module `module_id` (its first listing).
pub open spec fn module_meta(v: Seq<(String, BrandsMetaV1)>, module_id: Seq<char>) -> Option<BrandsMetaV1> {
    if metas_view(v).contains(module_id) {
        let i = choose|i: int|
            0 <= i < v.len() && v[i].0@ == module_id && forall|j: int| 0 <= j < i ==> v[j].0@ != module_id;
        Some(v[i].1)
    } else {
        None
    }
}

proof fn lemma_first_unique(v: Seq<(String, BrandsMetaV1)>, module_id: Seq<char>, i: int)
    requires
        0 <= i < v.len(),
        v[i].0@ == module_id,
        forall|j: int| 0 <= j < i ==> v[j].0@ != module_id,
    ensures
        module_meta(v, module_id) == Some(v[i].1),
{
    assert(metas_view(v)[i] == module_id);
    let k = choose|k: int|
        0 <= k < v.len() && v[k].0@ == module_id && forall|j: int| 0 <= j < k ==> v[j].0@ != module_id;
    if k < i {
        assert(v[k].0@ != module_id);
    } else if k > i {
        assert(v[i].0@ != module_id);
    }
}

/// The registry of the module `module_id` that a pipe names with
/// `brand_registry_ref_v1`; the module must exist.
pub fn load_brand_registry_v1(module_id: &str, module_metas: &Vec<(String, BrandsMetaV1)>) -> (r: Result<
    Vec<(String, String)>,
    CompilerError,
>)
    ensures
        match module_meta(module_metas@, module_id@) {
            None => typing_result(
                r,
                Err("brand_registry_ref_v1 refers to unknown module_id: "@ + spec_debug_str(module_id@)),
            ),
            Some(meta) => typing_result(r, brands_registry(meta)),
        },
{
    match find_module(module_metas, module_id) {
        None => Err(
            typing(
                concat_str("brand_registry_ref_v1 refers to unknown module_id: ", debug_str(module_id).as_str()),
            ),
        ),
        Some(meta) => {
            proof {
                let i = choose|i: int|
                    0 <= i < module_metas@.len() && module_metas@[i].0@ == module_id@ && module_metas@[i].1 == *meta
                        && forall|j: int| 0 <= j < i ==> module_metas@[j].0@ != module_id@;
                lemma_first_unique(module_metas@, module_id@, i);
            }
            load_brand_registry_v1_from_meta_v1(meta)
        },
    }
}

/// The registry of the pipe's own module `module_id`: empty when the module
/// has no metadata.
pub fn load_brand_registry_optional_v1(module_id: &str, module_metas: &Vec<(String, BrandsMetaV1)>) -> (r: Result<
    Vec<(String, String)>,
    CompilerError,
>)
    ensures
        match module_meta(module_metas@, module_id@) {
            None => typing_result(r, Ok(Seq::empty())),
            Some(meta) => typing_result(r, brands_registry(meta)),
        },
{
    match find_module(module_metas, module_id) {
        None => {
            let out: Vec<(String, String)> = Vec::new();
            assert(reg_view(out@) =~= Seq::<(Seq<char>, Seq<char>)>::empty());
            Ok(out)
        },
        Some(meta) => {
            proof {
                let i = choose|i: int|
                    0 <= i < module_metas@.len() && module_metas@[i].0@ == module_id@ && module_metas@[i].1 == *meta
                        && forall|j: int| 0 <= j < i ==> module_metas@[j].0@ != module_id@;
                lemma_first_unique(module_metas@, module_id@, i);
            }
            load_brand_registry_v1_from_meta_v1(meta)
        },
    }
}

/// Where the last `c` in `s` is, or -1.
pub open spec fn last_index_of(s: Seq<char>, c: char) -> int
    decreases s.len(),
{
    if s.len() == 0 {
        -1
    } else if s.last() == c {
        s.len() - 1
    } else {
        last_index_of(s.drop_last(), c)
    }
}

/// The module of a function named `module.name`: what comes before the
/// last `.`.
pub fn function_module_id(full_name: &str) -> (r: Result<String, CompilerError>)
    ensures
        last_index_of(full_name@, '.') >= 0 ==> (r matches Ok(m) && m@ == full_name@.take(
            last_index_of(full_name@, '.'),
        )),
        last_index_of(full_name@, '.') < 0 ==> (r matches Err(e) && e.kind == CompileErrorKind::Internal
            && e.message@ == "internal error: function name missing module prefix: "@ + spec_debug_str(full_name@)),
{
    let cs = chars_of(full_name);
    let mut k: usize = cs.len();
    while k > 0
        invariant
            k <= cs@.len(),
            cs@ == full_name@,
            forall|j: int| k <= j < cs@.len() ==> cs@[j] != '.',
        ensures
            k <= cs@.len(),
            forall|j: int| k <= j < cs@.len() ==> cs@[j] != '.',
            k == 0 || cs@[k - 1] == '.',
        decreases k,
    {
        if cs[k - 1] == '.' {
            break;
        }
        k = k - 1;
    }
    proof {
        lemma_last_index_agrees(full_name@, k as int);
    }
    if k == 0 {
        return Err(
            CompilerError::new(
                CompileErrorKind::Internal,
                concat_str("internal error: function name missing module prefix: ", debug_str(full_name).as_str()),
            ),
        );
    }
    let mut out = String::new();
    let mut i: usize = 0;
    while i + 1 < k
        invariant
            i < k,
            k <= cs@.len(),
            out@ == cs@.take(i as int),
        decreases k - i,
    {
        push_char(&mut out, cs[i]);
        proof {
            assert(cs@.take(i + 1) =~= cs@.take(i as int).push(cs@[i as int]));
        }
        i = i + 1;
    }
    Ok(out)
}

proof fn lemma_last_index_agrees(s: Seq<char>, k: int)
    requires
        0 <= k <= s.len(),
        forall|j: int| k <= j < s.len() ==> s[j] != '.',
        k == 0 || s[k - 1] == '.',
    ensures
        last_index_of(s, '.') == k - 1,
    decreases s.len(),
{
    if s.len() > 0 && s.last() != '.' {
        if k == s.len() {
            assert(s[k - 1] == '.');
        }
        lemma_last_index_agrees(s.drop_last(), k);
    }
}

} // verus!

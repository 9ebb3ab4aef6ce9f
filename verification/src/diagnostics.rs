//! Structured compiler diagnostics.

use vstd::prelude::*;

verus! {

/// A JSON-like value carried in a diagnostic's data or quickfix.
#[derive(Debug, PartialEq, Eq)]
pub enum DiagValue {
    Str(String),
    Int(i64),
    UInt(u64),
    Arr(Vec<DiagValue>),
}

/// The mathematical form of a diagnostic value.
pub enum DV {
    Str(Seq<char>),
    Int(int),
    Arr(Seq<DV>),
}

pub open spec fn view_dv(v: DiagValue) -> DV
    decreases v, 0nat,
{
    match v {
        DiagValue::Str(s) => DV::Str(s@),
        DiagValue::Int(i) => DV::Int(i as int),
        DiagValue::UInt(u) => DV::Int(u as int),
        DiagValue::Arr(items) => DV::Arr(view_dvs(items@)),
    }
}

pub open spec fn view_dvs(s: Seq<DiagValue>) -> Seq<DV>
    decreases s, 1nat,
{
    if s.len() == 0 {
        Seq::empty()
    } else {
        seq![view_dv(s[0])] + view_dvs(s.drop_first())
    }
}

impl View for DiagValue {
    type V = DV;

    open spec fn view(&self) -> DV {
        view_dv(*self)
    }
}

pub proof fn lemma_view_dvs(s: Seq<DiagValue>)
    ensures
        view_dvs(s).len() == s.len(),
        forall|i: int| 0 <= i < s.len() ==> #[trigger] view_dvs(s)[i] == view_dv(s[i]),
    decreases s.len(),
{
    if s.len() > 0 {
        lemma_view_dvs(s.drop_first());
        assert forall|i: int| 0 <= i < s.len() implies #[trigger] view_dvs(s)[i] == view_dv(s[i]) by {
            if i > 0 {
                assert(s.drop_first()[i - 1] == s[i]);
            }
        }
    }
}

/// Builds an array value; its view is the views of the items.
pub fn dv_array(items: Vec<DiagValue>) -> (r: DiagValue)
    ensures
        r@ == DV::Arr(items@.map_values(|x: DiagValue| x@)),
{
    proof {
        lemma_view_dvs(items@);
        assert(view_dvs(items@) =~= items@.map_values(|x: DiagValue| x@));
    }
    DiagValue::Arr(items)
}

impl DiagValue {
    /// A structurally identical copy.
    pub fn copy_value(&self) -> (r: DiagValue)
        ensures
            r@ == self@,
        decreases self@,
    {
        match self {
            DiagValue::Str(s) => DiagValue::Str(s.clone()),
            DiagValue::Int(i) => DiagValue::Int(*i),
            DiagValue::UInt(u) => DiagValue::UInt(*u),
            DiagValue::Arr(items) => {
                proof {
                    lemma_view_dvs(items@);
                }
                let mut out: Vec<DiagValue> = Vec::with_capacity(items.len());
                let mut i: usize = 0;
                while i < items.len()
                    invariant
                        self@ == DV::Arr(view_dvs(items@)),
                        view_dvs(items@).len() == items@.len(),
                        forall|j: int| 0 <= j < items@.len() ==> #[trigger] view_dvs(items@)[j]
                            == items@[j]@,
                        i <= items.len(),
                        out@.len() == i,
                        forall|j: int| 0 <= j < i ==> (#[trigger] out@[j])@ == items@[j]@,
                    decreases items.len() - i,
                {
                    proof {
                        let vs = view_dvs(items@);
                        assert(vs[i as int] == items@[i as int]@);
                        assert(self@->Arr_0 == vs);
                        assert(decreases_to!(self@ => self@->Arr_0));
                        assert(decreases_to!(vs => vs[i as int]));
                    }
                    let c = items[i].copy_value();
                    out.push(c);
                    i = i + 1;
                }
                proof {
                    lemma_view_dvs(out@);
                    assert(view_dvs(out@) =~= view_dvs(items@));
                }
                DiagValue::Arr(out)
            },
        }
    }
}

impl Clone for DiagValue {
    fn clone(&self) -> (r: Self)
        ensures
            r@ == self@,
    {
        self.copy_value()
    }
}

#[derive(Debug, Clone, Copy, PartialEq, Eq, Structural)]
pub enum Severity {
    Error,
    Warning,
    Info,
}

#[derive(Debug, Clone, Copy, PartialEq, Eq, Structural)]
pub enum Stage {
    Parse,
    Lint,
    Rewrite,
    Type,
    Lower,
    Codegen,
    Link,
    Run,
}

/// Where a diagnostic points: into the x07AST document, or into source text.
#[derive(Debug, Clone, PartialEq, Eq)]
pub enum Location {
    X07Ast { ptr: String },
    Text { path: String, line: u32, col: u32 },
}

#[derive(Debug, Clone, Copy, PartialEq, Eq, Structural)]
pub enum QuickfixKind {
    JsonPatch,
}

/// One JSON-patch operation of a quickfix.
#[derive(Debug, Clone, PartialEq, Eq)]
pub enum PatchOp {
    Test { path: String, value: DiagValue },
    Replace { path: String, value: DiagValue },
}

#[derive(Debug, Clone, PartialEq, Eq)]
pub struct Quickfix {
    pub kind: QuickfixKind,
    pub patch: Vec<PatchOp>,
    pub note: Option<String>,
}

/// A diagnostic; `data` is keyed by field name, in ascending key order.
#[derive(Debug, Clone, PartialEq, Eq)]
pub struct Diagnostic {
    pub code: String,
    pub severity: Severity,
    pub stage: Stage,
    pub message: String,
    pub loc: Option<Location>,
    pub notes: Vec<String>,
    pub related: Vec<Location>,
    pub data: Vec<(String, DiagValue)>,
    pub quickfix: Option<Quickfix>,
}

/// The data of a diagnostic as key/value views.
pub open spec fn data_view(d: Seq<(String, DiagValue)>) -> Seq<(Seq<char>, DV)> {
    d.map_values(|kv: (String, DiagValue)| (kv.0@, kv.1@))
}

impl Diagnostic {
    /// The value stored under `key`, if any.
    pub open spec fn data_get(&self, key: Seq<char>) -> Option<DV> {
        let d = data_view(self.data@);
        if exists|i: int| 0 <= i < d.len() && d[i].0 == key {
            let i = choose|i: int| 0 <= i < d.len() && d[i].0 == key;
            Some(d[i].1)
        } else {
            None
        }
    }

    /// Looks up `key` in the diagnostic's data.
    pub fn get_data(&self, key: &str) -> (r: Option<&DiagValue>)
        requires
            keys_unique(data_view(self.data@)),
        ensures
            match r {
                Some(v) => self.data_get(key@) == Some(v@),
                None => self.data_get(key@) is None,
            },
    {
        let mut i: usize = 0;
        while i < self.data.len()
            invariant
                keys_unique(data_view(self.data@)),
                i <= self.data.len(),
                forall|j: int| 0 <= j < i ==> (#[trigger] self.data@[j]).0@ != key@,
            decreases self.data.len() - i,
        {
            if crate::text::str_eq(self.data[i].0.as_str(), key) {
                proof {
                    let d = data_view(self.data@);
                    assert(d[i as int].0 == key@);
                    let k = choose|k: int| 0 <= k < d.len() && d[k].0 == key@;
                    if k != i {
                        if k < i {
                            assert(d[k].0 != d[i as int].0);
                        } else {
                            assert(d[i as int].0 != d[k].0);
                        }
                    }
                }
                return Some(&self.data[i].1);
            }
            i = i + 1;
        }
        proof {
            let d = data_view(self.data@);
            assert forall|j: int| 0 <= j < d.len() implies d[j].0 != key@ by {
                assert(self.data@[j].0@ != key@);
            }
        }
        None
    }
}

/// The mathematical form of a location.
pub enum LocV {
    X07Ast(Seq<char>),
    Text(Seq<char>, u32, u32),
}

impl View for Location {
    type V = LocV;

    open spec fn view(&self) -> LocV {
        match self {
            Location::X07Ast { ptr } => LocV::X07Ast(ptr@),
            Location::Text { path, line, col } => LocV::Text(path@, *line, *col),
        }
    }
}

pub open spec fn opt_loc_view(l: Option<Location>) -> Option<LocV> {
    match l {
        Some(x) => Some(x@),
        None => None,
    }
}

/// The mathematical form of a patch operation.
pub enum PatchOpV {
    Test(Seq<char>, DV),
    Replace(Seq<char>, DV),
}

impl View for PatchOp {
    type V = PatchOpV;

    open spec fn view(&self) -> PatchOpV {
        match self {
            PatchOp::Test { path, value } => PatchOpV::Test(path@, value@),
            PatchOp::Replace { path, value } => PatchOpV::Replace(path@, value@),
        }
    }
}

/// The mathematical form of a quickfix.
pub struct QuickfixV {
    pub kind: QuickfixKind,
    pub patch: Seq<PatchOpV>,
    pub note: Option<Seq<char>>,
}

impl View for Quickfix {
    type V = QuickfixV;

    open spec fn view(&self) -> QuickfixV {
        QuickfixV {
            kind: self.kind,
            patch: self.patch@.map_values(|p: PatchOp| p@),
            note: match self.note {
                Some(n) => Some(n@),
                None => None,
            },
        }
    }
}

/// The mathematical form of a diagnostic.
pub struct DiagV {
    pub code: Seq<char>,
    pub severity: Severity,
    pub stage: Stage,
    pub message: Seq<char>,
    pub loc: Option<LocV>,
    pub notes: Seq<Seq<char>>,
    pub related: Seq<LocV>,
    pub data: Seq<(Seq<char>, DV)>,
    pub quickfix: Option<QuickfixV>,
}

impl View for Diagnostic {
    type V = DiagV;

    open spec fn view(&self) -> DiagV {
        DiagV {
            code: self.code@,
            severity: self.severity,
            stage: self.stage,
            message: self.message@,
            loc: opt_loc_view(self.loc),
            notes: self.notes@.map_values(|n: String| n@),
            related: self.related@.map_values(|l: Location| l@),
            data: data_view(self.data@),
            quickfix: match self.quickfix {
                Some(q) => Some(q@),
                None => None,
            },
        }
    }
}

/// An error of the type stage at an x07AST pointer, with no notes, related
/// locations or quickfix.
pub open spec fn type_error_v(
    code: Seq<char>,
    message: Seq<char>,
    ptr: Seq<char>,
    data: Seq<(Seq<char>, DV)>,
) -> DiagV {
    DiagV {
        code,
        severity: Severity::Error,
        stage: Stage::Type,
        message,
        loc: Some(LocV::X07Ast(ptr)),
        notes: Seq::empty(),
        related: Seq::empty(),
        data,
        quickfix: None,
    }
}

/// Builds an error of the type stage at `ptr`.
pub fn type_error(code: &str, message: String, ptr: String, data: Vec<(String, DiagValue)>) -> (r:
    Diagnostic)
    ensures
        r@ == type_error_v(code@, message@, ptr@, data_view(data@)),
{
    let r = Diagnostic {
        code: code.to_string(),
        severity: Severity::Error,
        stage: Stage::Type,
        message,
        loc: Some(Location::X07Ast { ptr }),
        notes: Vec::new(),
        related: Vec::new(),
        data,
        quickfix: None,
    };
    assert(r@.notes =~= Seq::<Seq<char>>::empty());
    assert(r@.related =~= Seq::<LocV>::empty());
    r
}

/// No key occurs twice.
pub open spec fn keys_unique(d: Seq<(Seq<char>, DV)>) -> bool {
    forall|i: int, j: int| 0 <= i < j < d.len() ==> d[i].0 != d[j].0
}

} // verus!

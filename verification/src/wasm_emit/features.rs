//! The feature set of the WASM backend (v1).

use vstd::prelude::*;

verus! {

#[derive(Debug, Clone, Copy, PartialEq, Eq, Structural, PartialOrd, Ord, Hash)]
pub enum WasmFeatureV1 {
    CoreFormsV1,
    ControlFlowV1,
    LiteralsV1,
    ViewReadV1,
    ViewToBytesV1,
    FmtBuiltinsV1,
    ParseBuiltinsV1,
    BytesBuiltinsV1,
    OpsArithV1,
    OpsCmpV1,
    OpsCmpSignedV1,
    OpsNeqV1,
    OpsBitwiseV1,
    OpsLogicV1,
    OpsShiftV1,
    CodecU32LeV1,
}

/// The position of a feature in declaration order (the order the feature set lists them in).
pub open spec fn feature_rank(f: WasmFeatureV1) -> nat {
    match f {
        WasmFeatureV1::CoreFormsV1 => 0,
        WasmFeatureV1::ControlFlowV1 => 1,
        WasmFeatureV1::LiteralsV1 => 2,
        WasmFeatureV1::ViewReadV1 => 3,
        WasmFeatureV1::ViewToBytesV1 => 4,
        WasmFeatureV1::FmtBuiltinsV1 => 5,
        WasmFeatureV1::ParseBuiltinsV1 => 6,
        WasmFeatureV1::BytesBuiltinsV1 => 7,
        WasmFeatureV1::OpsArithV1 => 8,
        WasmFeatureV1::OpsCmpV1 => 9,
        WasmFeatureV1::OpsCmpSignedV1 => 10,
        WasmFeatureV1::OpsNeqV1 => 11,
        WasmFeatureV1::OpsBitwiseV1 => 12,
        WasmFeatureV1::OpsLogicV1 => 13,
        WasmFeatureV1::OpsShiftV1 => 14,
        WasmFeatureV1::CodecU32LeV1 => 15,
    }
}

/// The stable name of a feature.
pub open spec fn feature_name(f: WasmFeatureV1) -> Seq<char> {
    match f {
        WasmFeatureV1::CoreFormsV1 => "CoreFormsV1"@,
        WasmFeatureV1::ControlFlowV1 => "ControlFlowV1"@,
        WasmFeatureV1::LiteralsV1 => "LiteralsV1"@,
        WasmFeatureV1::ViewReadV1 => "ViewReadV1"@,
        WasmFeatureV1::ViewToBytesV1 => "ViewToBytesV1"@,
        WasmFeatureV1::FmtBuiltinsV1 => "FmtBuiltinsV1"@,
        WasmFeatureV1::ParseBuiltinsV1 => "ParseBuiltinsV1"@,
        WasmFeatureV1::BytesBuiltinsV1 => "BytesBuiltinsV1"@,
        WasmFeatureV1::OpsArithV1 => "OpsArithV1"@,
        WasmFeatureV1::OpsCmpV1 => "OpsCmpV1"@,
        WasmFeatureV1::OpsCmpSignedV1 => "OpsCmpSignedV1"@,
        WasmFeatureV1::OpsNeqV1 => "OpsNeqV1"@,
        WasmFeatureV1::OpsBitwiseV1 => "OpsBitwiseV1"@,
        WasmFeatureV1::OpsLogicV1 => "OpsLogicV1"@,
        WasmFeatureV1::OpsShiftV1 => "OpsShiftV1"@,
        WasmFeatureV1::CodecU32LeV1 => "CodecU32LeV1"@,
    }
}

/// Distinct features have distinct names.
pub proof fn lemma_feature_name_injective(a: WasmFeatureV1, b: WasmFeatureV1)
    ensures
        feature_name(a) == feature_name(b) ==> a == b,
{
    reveal_strlit("CoreFormsV1");
    reveal_strlit("ControlFlowV1");
    reveal_strlit("LiteralsV1");
    reveal_strlit("ViewReadV1");
    reveal_strlit("ViewToBytesV1");
    reveal_strlit("FmtBuiltinsV1");
    reveal_strlit("ParseBuiltinsV1");
    reveal_strlit("BytesBuiltinsV1");
    reveal_strlit("OpsArithV1");
    reveal_strlit("OpsCmpV1");
    reveal_strlit("OpsCmpSignedV1");
    reveal_strlit("OpsNeqV1");
    reveal_strlit("OpsBitwiseV1");
    reveal_strlit("OpsLogicV1");
    reveal_strlit("OpsShiftV1");
    reveal_strlit("CodecU32LeV1");
    assert("CoreFormsV1"@.len() == 11);
    assert("ControlFlowV1"@.len() == 13);
    assert("LiteralsV1"@.len() == 10);
    assert("ViewReadV1"@.len() == 10);
    assert("ViewToBytesV1"@.len() == 13);
    assert("FmtBuiltinsV1"@.len() == 13);
    assert("ParseBuiltinsV1"@.len() == 15);
    assert("BytesBuiltinsV1"@.len() == 15);
    assert("OpsArithV1"@.len() == 10);
    assert("OpsCmpV1"@.len() == 8);
    assert("OpsCmpSignedV1"@.len() == 14);
    assert("OpsNeqV1"@.len() == 8);
    assert("OpsBitwiseV1"@.len() == 12);
    assert("OpsLogicV1"@.len() == 10);
    assert("OpsShiftV1"@.len() == 10);
    assert("CodecU32LeV1"@.len() == 12);
    assert("ControlFlowV1"@[0] == 'C' && "ViewToBytesV1"@[0] == 'V');
    assert("ControlFlowV1"@[0] == 'C' && "FmtBuiltinsV1"@[0] == 'F');
    assert("LiteralsV1"@[0] == 'L' && "ViewReadV1"@[0] == 'V');
    assert("LiteralsV1"@[0] == 'L' && "OpsArithV1"@[0] == 'O');
    assert("LiteralsV1"@[0] == 'L' && "OpsLogicV1"@[0] == 'O');
    assert("LiteralsV1"@[0] == 'L' && "OpsShiftV1"@[0] == 'O');
    assert("FmtBuiltinsV1"@[0] == 'F' && "ViewToBytesV1"@[0] == 'V');
    assert("BytesBuiltinsV1"@[0] == 'B' && "ParseBuiltinsV1"@[0] == 'P');
    assert("OpsArithV1"@[0] == 'O' && "ViewReadV1"@[0] == 'V');
    assert("OpsArithV1"@[3] == 'A' && "OpsLogicV1"@[3] == 'L');
    assert("OpsArithV1"@[3] == 'A' && "OpsShiftV1"@[3] == 'S');
    assert("OpsCmpV1"@[3] == 'C' && "OpsNeqV1"@[3] == 'N');
    assert("OpsLogicV1"@[0] == 'O' && "ViewReadV1"@[0] == 'V');
    assert("OpsLogicV1"@[3] == 'L' && "OpsShiftV1"@[3] == 'S');
    assert("OpsShiftV1"@[0] == 'O' && "ViewReadV1"@[0] == 'V');
    assert("CodecU32LeV1"@[0] == 'C' && "OpsBitwiseV1"@[0] == 'O');
}

fn rank_of(f: WasmFeatureV1) -> (r: u8)
    ensures
        r as nat == feature_rank(f),
{
    match f {
        WasmFeatureV1::CoreFormsV1 => 0,
        WasmFeatureV1::ControlFlowV1 => 1,
        WasmFeatureV1::LiteralsV1 => 2,
        WasmFeatureV1::ViewReadV1 => 3,
        WasmFeatureV1::ViewToBytesV1 => 4,
        WasmFeatureV1::FmtBuiltinsV1 => 5,
        WasmFeatureV1::ParseBuiltinsV1 => 6,
        WasmFeatureV1::BytesBuiltinsV1 => 7,
        WasmFeatureV1::OpsArithV1 => 8,
        WasmFeatureV1::OpsCmpV1 => 9,
        WasmFeatureV1::OpsCmpSignedV1 => 10,
        WasmFeatureV1::OpsNeqV1 => 11,
        WasmFeatureV1::OpsBitwiseV1 => 12,
        WasmFeatureV1::OpsLogicV1 => 13,
        WasmFeatureV1::OpsShiftV1 => 14,
        WasmFeatureV1::CodecU32LeV1 => 15,
    }
}

pub proof fn lemma_feature_rank_injective(a: WasmFeatureV1, b: WasmFeatureV1)
    ensures
        feature_rank(a) == feature_rank(b) <==> a == b,
{
}

impl WasmFeatureV1 {
    pub fn as_str(self) -> (r: &'static str)
        ensures
            r@ == feature_name(self),
    {
        match self {
            WasmFeatureV1::CoreFormsV1 => "CoreFormsV1",
            WasmFeatureV1::ControlFlowV1 => "ControlFlowV1",
            WasmFeatureV1::LiteralsV1 => "LiteralsV1",
            WasmFeatureV1::ViewReadV1 => "ViewReadV1",
            WasmFeatureV1::ViewToBytesV1 => "ViewToBytesV1",
            WasmFeatureV1::FmtBuiltinsV1 => "FmtBuiltinsV1",
            WasmFeatureV1::ParseBuiltinsV1 => "ParseBuiltinsV1",
            WasmFeatureV1::BytesBuiltinsV1 => "BytesBuiltinsV1",
            WasmFeatureV1::OpsArithV1 => "OpsArithV1",
            WasmFeatureV1::OpsCmpV1 => "OpsCmpV1",
            WasmFeatureV1::OpsCmpSignedV1 => "OpsCmpSignedV1",
            WasmFeatureV1::OpsNeqV1 => "OpsNeqV1",
            WasmFeatureV1::OpsBitwiseV1 => "OpsBitwiseV1",
            WasmFeatureV1::OpsLogicV1 => "OpsLogicV1",
            WasmFeatureV1::OpsShiftV1 => "OpsShiftV1",
            WasmFeatureV1::CodecU32LeV1 => "CodecU32LeV1",
        }
    }
}

/// A set of enabled backend features, kept in feature order without repeats.
#[derive(Debug, Clone)]
pub struct WasmFeatureSetV1 {
    pub enabled: Vec<WasmFeatureV1>,
}

/// Strictly increasing by feature rank (hence no feature twice).
pub open spec fn strictly_ordered(s: Seq<WasmFeatureV1>) -> bool {
    forall|i: int, j: int| 0 <= i < j < s.len() ==> feature_rank(s[i]) < feature_rank(s[j])
}

impl WasmFeatureSetV1 {
    /// The set of enabled features.
    pub open spec fn view_set(&self) -> Set<WasmFeatureV1> {
        self.enabled@.to_set()
    }

    pub open spec fn wf(&self) -> bool {
        strictly_ordered(self.enabled@)
    }

    /// A copy holding the same features in the same order.
    pub fn copied(&self) -> (r: Self)
        ensures
            r.enabled@ == self.enabled@,
    {
        let mut enabled: Vec<WasmFeatureV1> = Vec::new();
        let mut i: usize = 0;
        while i < self.enabled.len()
            invariant
                i <= self.enabled.len(),
                enabled@ == self.enabled@.take(i as int),
            decreases self.enabled.len() - i,
        {
            enabled.push(self.enabled[i]);
            i = i + 1;
            assert(enabled@ =~= self.enabled@.take(i as int));
        }
        assert(self.enabled@.take(i as int) =~= self.enabled@);
        WasmFeatureSetV1 { enabled }
    }

    pub fn new(features: &[WasmFeatureV1]) -> (r: Self)
        ensures
            r.wf(),
            r.view_set() == features@.to_set(),
    {
        let mut s = WasmFeatureSetV1 { enabled: Vec::new() };
        let mut i: usize = 0;
        while i < features.len()
            invariant
                i <= features.len(),
                s.wf(),
                s.view_set() == features@.take(i as int).to_set(),
            decreases features.len() - i,
        {
            let f = features[i];
            s.insert(f);
            assert(features@.take(i + 1) =~= features@.take(i as int).push(f));
            proof {
                let t = features@.take(i as int);
                assert forall|x: WasmFeatureV1| t.push(f).contains(x) <==> t.to_set().insert(f).contains(x) by {
                    if t.push(f).contains(x) {
                        let k = choose|k: int| 0 <= k < t.push(f).len() && t.push(f)[k] == x;
                        if k < t.len() {
                            assert(t[k] == x);
                        }
                    }
                    if t.contains(x) {
                        let k = choose|k: int| 0 <= k < t.len() && t[k] == x;
                        assert(t.push(f)[k] == x);
                    }
                    if x == f {
                        assert(t.push(f)[t.len() as int] == f);
                    }
                }
                assert(t.push(f).to_set() =~= t.to_set().insert(f));
            }
            i = i + 1;
        }
        assert(features@.take(features.len() as int) =~= features@);
        s
    }

    fn insert(&mut self, f: WasmFeatureV1)
        requires
            old(self).wf(),
        ensures
            final(self).wf(),
            final(self).view_set() == old(self).view_set().insert(f),
    {
        let rf = rank_of(f);
        let mut i: usize = 0;
        while i < self.enabled.len() && rank_of(self.enabled[i]) < rf
            invariant
                self.wf(),
                i <= self.enabled.len(),
                forall|k: int| 0 <= k < i ==> feature_rank(#[trigger] self.enabled@[k]) < rf,
            decreases self.enabled.len() - i,
        {
            i = i + 1;
        }
        if i < self.enabled.len() && rank_of(self.enabled[i]) == rf {
            proof {
                lemma_feature_rank_injective(self.enabled@[i as int], f);
                assert(self.enabled@[i as int] == f);
                assert(self.enabled@.contains(f));
                assert(self.view_set().insert(f) =~= self.view_set());
            }
            return;
        }
        let ghost before = self.enabled@;
        self.enabled.insert(i, f);
        proof {
            assert(self.enabled@ == before.insert(i as int, f));
            assert forall|a: int, b: int| 0 <= a < b < self.enabled@.len() implies feature_rank(
                self.enabled@[a],
            ) < feature_rank(self.enabled@[b]) by {
                if i < before.len() {
                    assert(feature_rank(before[i as int]) > rf);
                }
            }
            assert forall|x: WasmFeatureV1| self.view_set().contains(x) <==> before.to_set().insert(
                f,
            ).contains(x) by {
                if self.enabled@.contains(x) {
                    let k = choose|k: int| 0 <= k < self.enabled@.len() && self.enabled@[k] == x;
                    if k < i {
                        assert(before[k] == x);
                    } else if k > i {
                        assert(before[k - 1] == x);
                    }
                }
                if before.contains(x) {
                    let k = choose|k: int| 0 <= k < before.len() && before[k] == x;
                    if k < i {
                        assert(self.enabled@[k] == x);
                    } else {
                        assert(self.enabled@[k + 1] == x);
                    }
                }
                if x == f {
                    assert(self.enabled@[i as int] == f);
                }
            }
            assert(self.view_set() =~= before.to_set().insert(f));
        }
    }

    pub fn has(&self, f: WasmFeatureV1) -> (r: bool)
        ensures
            r == self.view_set().contains(f),
    {
        let mut i: usize = 0;
        while i < self.enabled.len()
            invariant
                i <= self.enabled.len(),
                forall|k: int| 0 <= k < i ==> self.enabled@[k] != f,
            decreases self.enabled.len() - i,
        {
            if self.enabled[i] == f {
                assert(self.enabled@.contains(f));
                return true;
            }
            i = i + 1;
        }
        false
    }
}

/// Every feature the v1 backend implements.
pub open spec fn all_features_v1() -> Set<WasmFeatureV1> {
    Set::new(|f: WasmFeatureV1| true)
}

pub fn supported_features_v1() -> (r: WasmFeatureSetV1)
    ensures
        r.wf(),
        r.view_set() == all_features_v1(),
{
    let fs = [
        WasmFeatureV1::CoreFormsV1,
        WasmFeatureV1::ControlFlowV1,
        WasmFeatureV1::LiteralsV1,
        WasmFeatureV1::ViewReadV1,
        WasmFeatureV1::ViewToBytesV1,
        WasmFeatureV1::FmtBuiltinsV1,
        WasmFeatureV1::ParseBuiltinsV1,
        WasmFeatureV1::BytesBuiltinsV1,
        WasmFeatureV1::OpsArithV1,
        WasmFeatureV1::OpsCmpV1,
        WasmFeatureV1::OpsCmpSignedV1,
        WasmFeatureV1::OpsNeqV1,
        WasmFeatureV1::OpsBitwiseV1,
        WasmFeatureV1::OpsLogicV1,
        WasmFeatureV1::OpsShiftV1,
        WasmFeatureV1::CodecU32LeV1,
    ];
    let r = WasmFeatureSetV1::new(&fs);
    proof {
        assert forall|f: WasmFeatureV1| all_features_v1().contains(f) implies fs@.to_set().contains(f) by {
            match f {
                WasmFeatureV1::CoreFormsV1 => assert(fs@[0] == f),
                WasmFeatureV1::ControlFlowV1 => assert(fs@[1] == f),
                WasmFeatureV1::LiteralsV1 => assert(fs@[2] == f),
                WasmFeatureV1::ViewReadV1 => assert(fs@[3] == f),
                WasmFeatureV1::ViewToBytesV1 => assert(fs@[4] == f),
                WasmFeatureV1::FmtBuiltinsV1 => assert(fs@[5] == f),
                WasmFeatureV1::ParseBuiltinsV1 => assert(fs@[6] == f),
                WasmFeatureV1::BytesBuiltinsV1 => assert(fs@[7] == f),
                WasmFeatureV1::OpsArithV1 => assert(fs@[8] == f),
                WasmFeatureV1::OpsCmpV1 => assert(fs@[9] == f),
                WasmFeatureV1::OpsCmpSignedV1 => assert(fs@[10] == f),
                WasmFeatureV1::OpsNeqV1 => assert(fs@[11] == f),
                WasmFeatureV1::OpsBitwiseV1 => assert(fs@[12] == f),
                WasmFeatureV1::OpsLogicV1 => assert(fs@[13] == f),
                WasmFeatureV1::OpsShiftV1 => assert(fs@[14] == f),
                WasmFeatureV1::CodecU32LeV1 => assert(fs@[15] == f),
            }
        }
        assert(r.view_set() =~= all_features_v1());
    }
    r
}

} // verus!

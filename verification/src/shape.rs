use vstd::prelude::*;

verus! {

use vstd::arithmetic::div_mod::lemma_fundamental_div_mod_converse;

/// Which witness variant a compiled verifier program checks.
#[derive(Clone, Copy, Debug, PartialEq, Eq, Structural)]
pub enum WitnessKind {
    /// One or more shard proofs plus the program verifying key.
    Core,
    /// A batch of previously compressed sub-proofs with a running digest.
    Deferred,
    /// A small list of (verifying key, proof) pairs to merge.
    Compress,
}

/// A structural fingerprint of a witness, independent of its field values: the
/// key under which compiled verifier programs are cached and reused.
#[derive(Clone, Copy, Debug, PartialEq, Eq, Structural)]
pub struct WitnessShape {
    /// Which witness variant the program verifies.
    pub kind: WitnessKind,
    /// How many proof inputs the witness carries.
    pub proof_count: u64,
    /// The height of the allow-list Merkle tree embedded in the verifier.
    pub merkle_height: u64,
    /// Whether the witness is flagged complete.
    pub is_complete: bool,
}

pub open spec fn kind_code(k: WitnessKind) -> u64 {
    match k {
        WitnessKind::Core => 0,
        WitnessKind::Deferred => 1,
        WitnessKind::Compress => 2,
    }
}

impl WitnessShape {
    /// The counters fit the fields of the packed cache key.
    pub open spec fn wf(self) -> bool {
        self.proof_count < 0x10000 && self.merkle_height < 0x10000
    }

    /// The packed cache key: kind in the two low bits, then the proof count,
    /// the Merkle height and the completeness flag in disjoint fields.
    pub open spec fn encode_spec(self) -> u64 {
        (kind_code(self.kind) + 4 * (self.proof_count + 0x10000 * (self.merkle_height + 0x10000
            * (if self.is_complete {
            1u64
        } else {
            0u64
        })))) as u64
    }

    /// Packs the shape into its cache key.
    pub fn encode(&self) -> (key: u64)
        requires
            self.wf(),
        ensures
            key == self.encode_spec(),
    {
        let kind: u64 = match self.kind {
            WitnessKind::Core => 0,
            WitnessKind::Deferred => 1,
            WitnessKind::Compress => 2,
        };
        let complete: u64 = if self.is_complete {
            1
        } else {
            0
        };
        kind + 4 * (self.proof_count + 0x10000 * (self.merkle_height + 0x10000 * complete))
    }
}

/// Law: the packed cache key identifies the shape — two well-formed shapes with
/// the same key are the same shape, so a cache hit always returns a program that
/// was compiled for exactly the requested shape.
pub proof fn lemma_encode_injective(a: WitnessShape, b: WitnessShape)
    requires
        a.wf(),
        b.wf(),
        a.encode_spec() == b.encode_spec(),
    ensures
        a == b,
{
    let ac: u64 = if a.is_complete {
        1
    } else {
        0
    };
    let bc: u64 = if b.is_complete {
        1
    } else {
        0
    };
    let ar = (a.proof_count + 0x10000 * (a.merkle_height + 0x10000 * ac)) as int;
    let br = (b.proof_count + 0x10000 * (b.merkle_height + 0x10000 * bc)) as int;
    let e = a.encode_spec() as int;
    lemma_fundamental_div_mod_converse(e, 4, ar, kind_code(a.kind) as int);
    lemma_fundamental_div_mod_converse(e, 4, br, kind_code(b.kind) as int);
    assert(kind_code(a.kind) == kind_code(b.kind) && ar == br);
    let a2 = (a.merkle_height + 0x10000 * ac) as int;
    let b2 = (b.merkle_height + 0x10000 * bc) as int;
    lemma_fundamental_div_mod_converse(ar, 0x10000, a2, a.proof_count as int);
    lemma_fundamental_div_mod_converse(br, 0x10000, b2, b.proof_count as int);
    assert(a.proof_count == b.proof_count && a2 == b2);
    lemma_fundamental_div_mod_converse(a2, 0x10000, ac as int, a.merkle_height as int);
    lemma_fundamental_div_mod_converse(b2, 0x10000, bc as int, b.merkle_height as int);
    assert(a.merkle_height == b.merkle_height && ac == bc);
}

} // verus!

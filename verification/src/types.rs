use vstd::prelude::*;

verus! {

/// The prime modulus of the baby-bear field in which digests live; a canonical
/// digest element is strictly below it.
pub const FIELD_MODULUS: u32 = 0x78000001;

/// Every element of the sequence is a canonical field element.
pub open spec fn elems_wf(s: Seq<u32>) -> bool {
    forall|i: int| 0 <= i < s.len() ==> s[i] < FIELD_MODULUS
}

/// A composed (verifying key, proof) pair: one node of the reduction tree.
///
/// The composition logic reads two distinct key digests of such a proof. The
/// digest of the recursion verifying key that produced the proof is what the
/// allow-list authenticates; the digest the proof attests to in its public
/// outputs names the program that was verified inside, and is what the deferred
/// hash chain absorbs. For a deferred proof these are different keys. They are
/// carried as plain field-element values; the opaque proof object itself stays
/// with the caller, referenced by handle.
#[derive(Clone, Copy, Debug, PartialEq, Eq)]
pub struct SP1ReduceProof {
    /// Content digest of the recursion verifying key that produced the proof;
    /// this is the key the allow-list is asked about.
    pub vk_digest: [u32; 8],
    /// The attested digest of the verified program's key, read from the proof's
    /// public outputs; this is what the deferred hash chain absorbs.
    pub sp1_vk_digest: [u32; 8],
    /// The committed-values digest attested by the proof's public outputs,
    /// as 32 field elements (one byte each).
    pub committed_value_digest: [u32; 32],
    /// Handle to the underlying opaque proof object held by the caller.
    pub proof_id: u64,
}

impl SP1ReduceProof {
    /// All carried digests consist of canonical field elements.
    pub open spec fn wf(self) -> bool {
        elems_wf(self.vk_digest@) && elems_wf(self.sp1_vk_digest@) && elems_wf(
            self.committed_value_digest@,
        )
    }
}

/// Every proof in the sequence is well-formed.
pub open spec fn proofs_wf(s: Seq<SP1ReduceProof>) -> bool {
    forall|i: int| 0 <= i < s.len() ==> (#[trigger] s[i]).wf()
}

/// The `j`-th little-endian byte of a 32-bit word.
pub open spec fn word_byte(w: u32, j: nat) -> u8
    recommends
        j < 4,
{
    ((w >> ((8 * j) as u32)) & 0xff) as u8
}

/// The committed-values digest as bytes: each 32-bit word of the executor's
/// public values contributes its four little-endian bytes, in word order.
pub fn committed_value_digest_bytes(words: &[u32; 8]) -> (bytes: Vec<u8>)
    ensures
        bytes@.len() == 32,
        forall|i: int, j: int|
            0 <= i < 8 && 0 <= j < 4 ==> #[trigger] bytes@[4 * i + j] == word_byte(
                words@[i],
                j as nat,
            ),
{
    let mut bytes: Vec<u8> = Vec::new();
    let mut i: usize = 0;
    while i < 8
        invariant
            0 <= i <= 8,
            bytes@.len() == 4 * i,
            forall|x: int, j: int|
                0 <= x < i && 0 <= j < 4 ==> #[trigger] bytes@[4 * x + j] == word_byte(
                    words@[x],
                    j as nat,
                ),
        decreases 8 - i,
    {
        let w = words[i];
        let mut j: usize = 0;
        while j < 4
            invariant
                0 <= j <= 4,
                w == words@[i as int],
                0 <= i < 8,
                bytes@.len() == 4 * i + j,
                forall|x: int, y: int|
                    0 <= x < i && 0 <= y < 4 ==> #[trigger] bytes@[4 * x + y] == word_byte(
                        words@[x],
                        y as nat,
                    ),
                forall|y: int|
                    0 <= y < j ==> #[trigger] bytes@[4 * i + y] == word_byte(
                        words@[i as int],
                        y as nat,
                    ),
            decreases 4 - j,
        {
            let shift: u32 = 8 * (j as u32);
            bytes.push(((w >> shift) & 0xff) as u8);
            j = j + 1;
        }
        i = i + 1;
    }
    bytes
}

/// A fatal fault of the composition itself. Faults of the surrounding machinery
/// (circuit execution, proving, worker channels) arise outside this library and
/// are surfaced by the caller that runs those stages.
#[derive(Clone, Copy, Debug, PartialEq, Eq, Structural)]
pub enum ComposeError {
    /// A referenced proof's verifying key is not in the committed allow-list
    /// while allow-list verification is enabled; the composition aborts.
    VkNotAllowed,
}

} // verus!

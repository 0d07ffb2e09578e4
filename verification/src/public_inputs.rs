//! The public inputs of an execution proof, their canonical byte layout and
//! digest, the proof envelope, and the little-endian byte form of a program.
use tiny_keccak::{Hasher, Keccak};
use vstd::bytes::{
    lemma_auto_spec_u64_to_from_le_bytes, spec_u64_from_le_bytes, spec_u64_to_le_bytes,
    u64_to_le_bytes,
};
use vstd::prelude::*;

verus! {

/// Everything an execution proof commits to.
#[derive(Debug, Clone, PartialEq, Eq)]
pub struct ExecutionPublicInputs {
    pub chain_id: u64,
    pub program_hash: [u8; 32],
    pub initial_state_root: [u8; 32],
    pub final_state_root: [u8; 32],
    pub sender: u64,
    pub nonce: u64,
    pub block_height: u64,
    pub gas_limit: u64,
    pub gas_used: u64,
    pub exit_code: u64,
    pub trace_len: u64,
    pub event_digest: [u8; 32],
}

/// A serialized proof and what it was made for.
#[derive(Debug, Clone)]
pub struct ProofEnvelope {
    pub proof_format_version: u32,
    pub backend: String,
    pub p3_version: String,
    pub fri_params_id: String,
    pub public_inputs_hash: [u8; 32],
    pub proof_bytes: Vec<u8>,
    pub degree_bits: u32,
}

/// Why proving failed.
#[derive(Debug, Clone, PartialEq, Eq)]
pub enum ProverError {
    TraceGenerationError(String),
    ProverInternalError(String),
    SerializationError(String),
}

/// Why a proof was refused.
#[derive(Debug, Clone, PartialEq, Eq)]
pub enum VerifyError {
    DeserializationError(String),
    InvalidEnvelope(String),
    PublicInputsMismatch,
    InvalidProof,
}

/// The canonical layout: every field in declaration order, integers as
/// 8 little-endian bytes, digests and roots as their 32 bytes.
pub open spec fn canonical_bytes(pi: ExecutionPublicInputs) -> Seq<u8> {
    spec_u64_to_le_bytes(pi.chain_id) + pi.program_hash@ + pi.initial_state_root@
        + pi.final_state_root@ + spec_u64_to_le_bytes(pi.sender) + spec_u64_to_le_bytes(pi.nonce)
        + spec_u64_to_le_bytes(pi.block_height) + spec_u64_to_le_bytes(pi.gas_limit)
        + spec_u64_to_le_bytes(pi.gas_used) + spec_u64_to_le_bytes(pi.exit_code)
        + spec_u64_to_le_bytes(pi.trace_len) + pi.event_digest@
}

/// The Keccak-256 digest (32 bytes) of a byte string.
pub uninterp spec fn keccak256(data: Seq<u8>) -> Seq<u8>;

/// Calls tiny_keccak's `Keccak::v256` hasher: one `update` with `data`, then
/// `finalize` into a 32-byte buffer. The contract claims only that the
/// digest is a function of `data`; which function (Keccak-256) is unproved.
#[verifier::external_body]
pub(crate) fn compute_keccak256(data: &[u8]) -> (res: [u8; 32])
    ensures
        res@ == keccak256(data@),
{
    let mut hasher = Keccak::v256();
    hasher.update(data);
    let mut res = [0u8;32];
    hasher.finalize(&mut res);
    res
}

/// Appends the bytes of `src` to `out`.
fn push_all(out: &mut Vec<u8>, src: &[u8])
    ensures
        final(out)@ == old(out)@ + src@,
{
    let mut i: usize = 0;
    while i < src.len()
        invariant
            i <= src@.len(),
            out@ == old(out)@ + src@.subrange(0, i as int),
        decreases src@.len() - i,
    {
        out.push(src[i]);
        i = i + 1;
        assert(out@ =~= old(out)@ + src@.subrange(0, i as int));
    }
    assert(src@.subrange(0, src@.len() as int) =~= src@);
}

/// Appends the 8 little-endian bytes of `x` to `out`.
fn push_u64_le(out: &mut Vec<u8>, x: u64)
    ensures
        final(out)@ == old(out)@ + spec_u64_to_le_bytes(x),
{
    let b = u64_to_le_bytes(x);
    push_all(out, b.as_slice());
}

impl ExecutionPublicInputs {
    /// The 192 bytes that the proof binds: see `canonical_bytes`.
    pub fn to_canonical_bytes(&self) -> (bytes: Vec<u8>)
        ensures
            bytes@ == canonical_bytes(*self),
            bytes@.len() == 192,
    {
        proof {
            lemma_auto_spec_u64_to_from_le_bytes();
        }
        let mut bytes: Vec<u8> = Vec::with_capacity(192);
        push_u64_le(&mut bytes, self.chain_id);
        push_all(&mut bytes, self.program_hash.as_slice());
        push_all(&mut bytes, self.initial_state_root.as_slice());
        push_all(&mut bytes, self.final_state_root.as_slice());
        push_u64_le(&mut bytes, self.sender);
        push_u64_le(&mut bytes, self.nonce);
        push_u64_le(&mut bytes, self.block_height);
        push_u64_le(&mut bytes, self.gas_limit);
        push_u64_le(&mut bytes, self.gas_used);
        push_u64_le(&mut bytes, self.exit_code);
        push_u64_le(&mut bytes, self.trace_len);
        push_all(&mut bytes, self.event_digest.as_slice());
        bytes
    }

    /// The Keccak-256 digest of the canonical bytes.
    pub fn hash(&self) -> (res: [u8; 32])
        ensures
            res@ == keccak256(canonical_bytes(*self)),
    {
        let bytes = self.to_canonical_bytes();
        compute_keccak256(bytes.as_slice())
    }
}

/// Where each field stands in the canonical bytes: 192 bytes, the fields in
/// declaration order, integers as 8 little-endian bytes and digests and
/// roots as their 32 bytes.
pub proof fn lemma_canonical_layout(pi: ExecutionPublicInputs)
    ensures
        canonical_bytes(pi).len() == 192,
        canonical_bytes(pi).subrange(0, 8) == spec_u64_to_le_bytes(pi.chain_id),
        canonical_bytes(pi).subrange(8, 40) == pi.program_hash@,
        canonical_bytes(pi).subrange(40, 72) == pi.initial_state_root@,
        canonical_bytes(pi).subrange(72, 104) == pi.final_state_root@,
        canonical_bytes(pi).subrange(104, 112) == spec_u64_to_le_bytes(pi.sender),
        canonical_bytes(pi).subrange(112, 120) == spec_u64_to_le_bytes(pi.nonce),
        canonical_bytes(pi).subrange(120, 128) == spec_u64_to_le_bytes(pi.block_height),
        canonical_bytes(pi).subrange(128, 136) == spec_u64_to_le_bytes(pi.gas_limit),
        canonical_bytes(pi).subrange(136, 144) == spec_u64_to_le_bytes(pi.gas_used),
        canonical_bytes(pi).subrange(144, 152) == spec_u64_to_le_bytes(pi.exit_code),
        canonical_bytes(pi).subrange(152, 160) == spec_u64_to_le_bytes(pi.trace_len),
        canonical_bytes(pi).subrange(160, 192) == pi.event_digest@,
{
    broadcast use vstd::array::group_array_axioms;

    lemma_auto_spec_u64_to_from_le_bytes();
    let b = canonical_bytes(pi);
    assert(b.subrange(0, 8) =~= spec_u64_to_le_bytes(pi.chain_id));
    assert(b.subrange(8, 40) =~= pi.program_hash@);
    assert(b.subrange(40, 72) =~= pi.initial_state_root@);
    assert(b.subrange(72, 104) =~= pi.final_state_root@);
    assert(b.subrange(104, 112) =~= spec_u64_to_le_bytes(pi.sender));
    assert(b.subrange(112, 120) =~= spec_u64_to_le_bytes(pi.nonce));
    assert(b.subrange(120, 128) =~= spec_u64_to_le_bytes(pi.block_height));
    assert(b.subrange(128, 136) =~= spec_u64_to_le_bytes(pi.gas_limit));
    assert(b.subrange(136, 144) =~= spec_u64_to_le_bytes(pi.gas_used));
    assert(b.subrange(144, 152) =~= spec_u64_to_le_bytes(pi.exit_code));
    assert(b.subrange(152, 160) =~= spec_u64_to_le_bytes(pi.trace_len));
    assert(b.subrange(160, 192) =~= pi.event_digest@);
}

/// Two public inputs with the same canonical bytes are the same: the layout
/// loses nothing, so the digest binds every field.
pub proof fn lemma_canonical_bytes_injective(a: ExecutionPublicInputs, b: ExecutionPublicInputs)
    requires
        canonical_bytes(a) == canonical_bytes(b),
    ensures
        a == b,
{
    broadcast use vstd::array::group_array_axioms;

    lemma_auto_spec_u64_to_from_le_bytes();
    let sa = canonical_bytes(a);
    let sb = canonical_bytes(b);
    assert(sa.len() == 192);
    // field offsets in the layout
    assert(sa.subrange(0, 8) =~= spec_u64_to_le_bytes(a.chain_id));
    assert(sb.subrange(0, 8) =~= spec_u64_to_le_bytes(b.chain_id));
    assert(sa.subrange(8, 40) =~= a.program_hash@);
    assert(sb.subrange(8, 40) =~= b.program_hash@);
    assert(sa.subrange(40, 72) =~= a.initial_state_root@);
    assert(sb.subrange(40, 72) =~= b.initial_state_root@);
    assert(sa.subrange(72, 104) =~= a.final_state_root@);
    assert(sb.subrange(72, 104) =~= b.final_state_root@);
    assert(sa.subrange(104, 112) =~= spec_u64_to_le_bytes(a.sender));
    assert(sb.subrange(104, 112) =~= spec_u64_to_le_bytes(b.sender));
    assert(sa.subrange(112, 120) =~= spec_u64_to_le_bytes(a.nonce));
    assert(sb.subrange(112, 120) =~= spec_u64_to_le_bytes(b.nonce));
    assert(sa.subrange(120, 128) =~= spec_u64_to_le_bytes(a.block_height));
    assert(sb.subrange(120, 128) =~= spec_u64_to_le_bytes(b.block_height));
    assert(sa.subrange(128, 136) =~= spec_u64_to_le_bytes(a.gas_limit));
    assert(sb.subrange(128, 136) =~= spec_u64_to_le_bytes(b.gas_limit));
    assert(sa.subrange(136, 144) =~= spec_u64_to_le_bytes(a.gas_used));
    assert(sb.subrange(136, 144) =~= spec_u64_to_le_bytes(b.gas_used));
    assert(sa.subrange(144, 152) =~= spec_u64_to_le_bytes(a.exit_code));
    assert(sb.subrange(144, 152) =~= spec_u64_to_le_bytes(b.exit_code));
    assert(sa.subrange(152, 160) =~= spec_u64_to_le_bytes(a.trace_len));
    assert(sb.subrange(152, 160) =~= spec_u64_to_le_bytes(b.trace_len));
    assert(sa.subrange(160, 192) =~= a.event_digest@);
    assert(sb.subrange(160, 192) =~= b.event_digest@);
    assert(a.program_hash@ =~= b.program_hash@);
    assert(a.initial_state_root@ =~= b.initial_state_root@);
    assert(a.final_state_root@ =~= b.final_state_root@);
    assert(a.event_digest@ =~= b.event_digest@);
    assert(a.program_hash =~= b.program_hash);
    assert(a.initial_state_root =~= b.initial_state_root);
    assert(a.final_state_root =~= b.final_state_root);
    assert(a.event_digest =~= b.event_digest);
    assert(spec_u64_from_le_bytes(spec_u64_to_le_bytes(a.chain_id)) == a.chain_id);
    assert(spec_u64_from_le_bytes(spec_u64_to_le_bytes(b.chain_id)) == b.chain_id);
    assert(spec_u64_from_le_bytes(spec_u64_to_le_bytes(a.sender)) == a.sender);
    assert(spec_u64_from_le_bytes(spec_u64_to_le_bytes(b.sender)) == b.sender);
    assert(spec_u64_from_le_bytes(spec_u64_to_le_bytes(a.nonce)) == a.nonce);
    assert(spec_u64_from_le_bytes(spec_u64_to_le_bytes(b.nonce)) == b.nonce);
    assert(spec_u64_from_le_bytes(spec_u64_to_le_bytes(a.block_height)) == a.block_height);
    assert(spec_u64_from_le_bytes(spec_u64_to_le_bytes(b.block_height)) == b.block_height);
    assert(spec_u64_from_le_bytes(spec_u64_to_le_bytes(a.gas_limit)) == a.gas_limit);
    assert(spec_u64_from_le_bytes(spec_u64_to_le_bytes(b.gas_limit)) == b.gas_limit);
    assert(spec_u64_from_le_bytes(spec_u64_to_le_bytes(a.gas_used)) == a.gas_used);
    assert(spec_u64_from_le_bytes(spec_u64_to_le_bytes(b.gas_used)) == b.gas_used);
    assert(spec_u64_from_le_bytes(spec_u64_to_le_bytes(a.exit_code)) == a.exit_code);
    assert(spec_u64_from_le_bytes(spec_u64_to_le_bytes(b.exit_code)) == b.exit_code);
    assert(spec_u64_from_le_bytes(spec_u64_to_le_bytes(a.trace_len)) == a.trace_len);
    assert(spec_u64_from_le_bytes(spec_u64_to_le_bytes(b.trace_len)) == b.trace_len);
}

} // verus!

//! The byte form of a compiled program (a `.budc` file): each 64-bit
//! instruction word as 8 little-endian bytes, in order.
use crate::public_inputs::{compute_keccak256, keccak256};
use vstd::bytes::{
    lemma_auto_spec_u64_to_from_le_bytes, spec_u64_from_le_bytes, spec_u64_to_le_bytes,
    u64_from_le_bytes, u64_to_le_bytes,
};
use vstd::prelude::*;
use vstd::slice::slice_subrange;

verus! {

/// The bytes of a word sequence: each word as 8 little-endian bytes.
pub open spec fn program_bytes(p: Seq<u64>) -> Seq<u8>
    decreases p.len(),
{
    if p.len() == 0 {
        Seq::empty()
    } else {
        program_bytes(p.drop_last()) + spec_u64_to_le_bytes(p.last())
    }
}

/// The words read from a byte string, 8 little-endian bytes each.
pub open spec fn program_of_bytes(b: Seq<u8>) -> Seq<u64> {
    Seq::new(b.len() / 8, |i: int| spec_u64_from_le_bytes(b.subrange(8 * i, 8 * i + 8)))
}

/// The text of the error for a byte string whose length is no multiple of 8.
pub open spec fn bad_length_message() -> Seq<char> {
    "Invalid bytecode: file size must be a multiple of 8 bytes"@
}

/// The byte form of a word sequence has 8 bytes per word, and bytes
/// `8i..8i+8` are those of word `i`.
pub proof fn lemma_program_bytes_layout(p: Seq<u64>)
    ensures
        program_bytes(p).len() == 8 * p.len(),
        forall|i: int|
            0 <= i < p.len() ==> #[trigger] program_bytes(p).subrange(8 * i, 8 * i + 8)
                == spec_u64_to_le_bytes(p[i]),
    decreases p.len(),
{
    lemma_auto_spec_u64_to_from_le_bytes();
    if p.len() > 0 {
        let q = p.drop_last();
        lemma_program_bytes_layout(q);
        let b = program_bytes(p);
        assert forall|i: int| 0 <= i < p.len() implies #[trigger] b.subrange(8 * i, 8 * i + 8)
            == spec_u64_to_le_bytes(p[i]) by {
            if i < q.len() {
                assert(b.subrange(8 * i, 8 * i + 8) =~= program_bytes(q).subrange(8 * i, 8 * i + 8));
            } else {
                assert(b.subrange(8 * i, 8 * i + 8) =~= spec_u64_to_le_bytes(p.last()));
            }
        }
    }
}

/// Reading words back from the bytes of a program gives the program.
pub proof fn lemma_program_of_bytes_inverse(p: Seq<u64>)
    ensures
        program_of_bytes(program_bytes(p)) == p,
{
    lemma_auto_spec_u64_to_from_le_bytes();
    lemma_program_bytes_layout(p);
    let b = program_bytes(p);
    assert forall|i: int| 0 <= i < p.len() implies #[trigger] program_of_bytes(b)[i] == p[i] by {
        assert(b.subrange(8 * i, 8 * i + 8) == spec_u64_to_le_bytes(p[i]));
    }
    assert(program_of_bytes(b) =~= p);
}

/// A byte string whose length is a multiple of 8 is the byte form of the
/// words read from it.
pub proof fn lemma_program_bytes_inverse(b: Seq<u8>)
    requires
        b.len() % 8 == 0,
    ensures
        program_bytes(program_of_bytes(b)) == b,
{
    lemma_auto_spec_u64_to_from_le_bytes();
    let p = program_of_bytes(b);
    lemma_program_bytes_layout(p);
    let c = program_bytes(p);
    assert(c.len() == b.len());
    assert forall|k: int| 0 <= k < b.len() implies c[k] == b[k] by {
        let i = k / 8;
        assert(0 <= i < p.len());
        let chunk = b.subrange(8 * i, 8 * i + 8);
        assert(chunk.len() == 8);
        assert(spec_u64_to_le_bytes(spec_u64_from_le_bytes(chunk)) == chunk);
        assert(c.subrange(8 * i, 8 * i + 8) == spec_u64_to_le_bytes(p[i]));
        assert(c[k] == c.subrange(8 * i, 8 * i + 8)[k - 8 * i]);
    }
    assert(c =~= b);
}

/// Two programs with the same byte form are the same program.
pub proof fn lemma_program_bytes_injective(p: Seq<u64>, q: Seq<u64>)
    requires
        program_bytes(p) == program_bytes(q),
    ensures
        p == q,
{
    lemma_program_of_bytes_inverse(p);
    lemma_program_of_bytes_inverse(q);
}

/// The byte form of a program, as a deployed `.budc` file holds it.
pub fn program_to_bytes(program: &[u64]) -> (bytes: Vec<u8>)
    ensures
        bytes@ == program_bytes(program@),
{
    let mut out: Vec<u8> = Vec::new();
    let mut i: usize = 0;
    while i < program.len()
        invariant
            i <= program@.len(),
            out@ == program_bytes(program@.subrange(0, i as int)),
        decreases program@.len() - i,
    {
        let b = u64_to_le_bytes(program[i]);
        let mut j: usize = 0;
        let ghost before = out@;
        while j < b.len()
            invariant
                j <= b@.len(),
                b@.len() == 8,
                out@ == before + b@.subrange(0, j as int),
            decreases b@.len() - j,
        {
            out.push(b[j]);
            j = j + 1;
            assert(out@ =~= before + b@.subrange(0, j as int));
        }
        assert(b@.subrange(0, 8) =~= b@);
        assert(program@.subrange(0, i + 1).drop_last() =~= program@.subrange(0, i as int));
        i = i + 1;
    }
    assert(program@.subrange(0, program@.len() as int) =~= program@);
    out
}

/// Reads a program from its byte form; refuses a length that is no
/// multiple of 8.
pub fn program_from_bytes(bytes: &[u8]) -> (r: Result<Vec<u64>, String>)
    ensures
        r is Ok <==> bytes@.len() % 8 == 0,
        r matches Ok(p) ==> p@ == program_of_bytes(bytes@),
        r matches Err(msg) ==> msg@ == bad_length_message(),
{
    if bytes.len() % 8 != 0 {
        return Err(String::from_str("Invalid bytecode: file size must be a multiple of 8 bytes"));
    }
    let blen = bytes.len();
    let n = blen / 8;
    let mut prog: Vec<u64> = Vec::new();
    let mut i: usize = 0;
    while i < n
        invariant
            n == bytes@.len() / 8,
            blen == bytes@.len(),
            i <= n,
            prog@.len() == i,
            forall|k: int| 0 <= k < i ==> #[trigger] prog@[k] == program_of_bytes(bytes@)[k],
        decreases n - i,
    {
        assert(8 * i + 8 <= blen) by (nonlinear_arith)
            requires
                i < n,
                n == blen / 8,
        ;
        let chunk = slice_subrange(bytes, 8 * i, 8 * i + 8);
        let w = u64_from_le_bytes(chunk);
        prog.push(w);
        i = i + 1;
    }
    assert(prog@ =~= program_of_bytes(bytes@));
    Ok(prog)
}

/// The Keccak-256 digest of the byte form of a word sequence; the program
/// hash of an execution is made this way.
pub fn words_digest(words: &[u64]) -> (res: [u8; 32])
    ensures
        res@ == keccak256(program_bytes(words@)),
{
    let bytes = program_to_bytes(words);
    compute_keccak256(bytes.as_slice())
}

} // verus!
